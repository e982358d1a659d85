use vstd::prelude::*;
use vstd::string::*;

use crate::text::{decimal_int, usize_to_decimal};

verus! {

/// Why bytes are not a plan node.
#[derive(Clone, Copy, PartialEq, Eq, Structural, Debug)]
pub enum DecodeFault {
    /// The bytes end inside a field, or a field is not laid out as the
    /// format asks.
    Malformed,
    /// The bytes hold no operator at all.
    NoPlanType,
}

/// What this library reports when it cannot do what was asked.
#[derive(Debug, Clone, PartialEq, Eq)]
pub enum LokiError {
    /// A projection names a column that the schema does not have.
    ProjectionOutOfBounds { index: usize, fields: usize },
    /// A projection names a column twice.
    DuplicateProjection { index: usize },
    /// The rows to insert do not have the schema of a log table.
    SchemaMismatch,
    /// A label column is called like the timestamp or the line column.
    ReservedLabel,
    /// A function was given another number of arguments than it takes.
    ArgumentCount { expected: usize, found: usize },
    /// The first argument of the lookup is not a map.
    NotAMap,
    /// The entries of a map are not records of a key and a value.
    NotAStruct,
    /// A map column whose offsets do not fit its rows or its entries.
    InvalidMapColumn,
    /// Two columns of one call differ in length.
    MixedLength { expected: usize, found: usize },
    /// The filter at this position cannot be translated.
    UnsupportedFilter { position: usize },
    /// No filter selects by label, and no default label is configured.
    MissingLabelFilter,
    /// Rows can only be appended.
    UnsupportedInsertOp,
    /// An operator has the single partition 0.
    UnsupportedPartition { partition: usize },
    /// The store answered the connection check with a status other than
    /// success.
    ConnectionFailed { status: u16 },
    /// The request could not be sent, or its answer could not be read.
    Transport { message: String },
    /// The store answered a read with a status other than success.
    RequestFailed { status: u16, url: String, body: Option<String> },
    /// The input of an insert failed to give its rows.
    InputFailed { message: String },
    /// The store answered a write with a status other than success.
    PushFailed { status: u16, body: Option<String> },
    /// The row at this position has no timestamp.
    NullTimestamp { row: usize },
    /// The row at this position has a label without a name.
    NullLabelKey { row: usize },
    /// The answer to a read is not the columnar stream that was asked for.
    MalformedBody { message: String },
    /// The bytes are not a plan node.
    Decode { fault: DecodeFault },
    /// An insert was rebuilt with a number of inputs other than one.
    InputCount { found: usize },
    /// The operator is none that the codec writes.
    NotImplemented { name: String },
    /// The step does not fit the state that the operator is in.
    OutOfOrder,
}

/// The classes of failure.
#[derive(Clone, Copy, PartialEq, Eq, Structural, Debug)]
pub enum ErrorKind {
    /// Raised when an operator or a table is built.
    Configuration,
    /// Raised when filters are turned into a query, before any request.
    Translation,
    /// Raised while an operator runs.
    Transport,
    /// Raised on bytes that cannot be read.
    Decode,
}

impl LokiError {
    pub open spec fn spec_kind(&self) -> ErrorKind {
        match self {
            LokiError::ProjectionOutOfBounds { .. } => ErrorKind::Configuration,
            LokiError::DuplicateProjection { .. } => ErrorKind::Configuration,
            LokiError::SchemaMismatch => ErrorKind::Configuration,
            LokiError::ReservedLabel => ErrorKind::Configuration,
            LokiError::InputCount { .. } => ErrorKind::Configuration,
            LokiError::ArgumentCount { .. } => ErrorKind::Configuration,
            LokiError::NotAMap => ErrorKind::Configuration,
            LokiError::NotAStruct => ErrorKind::Configuration,
            LokiError::InvalidMapColumn => ErrorKind::Configuration,
            LokiError::MixedLength { .. } => ErrorKind::Configuration,
            LokiError::UnsupportedFilter { .. } => ErrorKind::Translation,
            LokiError::MissingLabelFilter => ErrorKind::Translation,
            LokiError::UnsupportedInsertOp => ErrorKind::Translation,
            LokiError::NotImplemented { .. } => ErrorKind::Translation,
            LokiError::UnsupportedPartition { .. } => ErrorKind::Transport,
            LokiError::ConnectionFailed { .. } => ErrorKind::Transport,
            LokiError::Transport { .. } => ErrorKind::Transport,
            LokiError::RequestFailed { .. } => ErrorKind::Transport,
            LokiError::InputFailed { .. } => ErrorKind::Transport,
            LokiError::PushFailed { .. } => ErrorKind::Transport,
            LokiError::NullTimestamp { .. } => ErrorKind::Transport,
            LokiError::NullLabelKey { .. } => ErrorKind::Transport,
            LokiError::OutOfOrder => ErrorKind::Transport,
            LokiError::MalformedBody { .. } => ErrorKind::Decode,
            LokiError::Decode { .. } => ErrorKind::Decode,
        }
    }

    /// The class of the failure.
    #[verifier::when_used_as_spec(spec_kind)]
    pub fn kind(&self) -> (kind: ErrorKind)
        ensures
            kind == self.spec_kind(),
    {
        match self {
            LokiError::ProjectionOutOfBounds { .. } => ErrorKind::Configuration,
            LokiError::DuplicateProjection { .. } => ErrorKind::Configuration,
            LokiError::SchemaMismatch => ErrorKind::Configuration,
            LokiError::ReservedLabel => ErrorKind::Configuration,
            LokiError::InputCount { .. } => ErrorKind::Configuration,
            LokiError::ArgumentCount { .. } => ErrorKind::Configuration,
            LokiError::NotAMap => ErrorKind::Configuration,
            LokiError::NotAStruct => ErrorKind::Configuration,
            LokiError::InvalidMapColumn => ErrorKind::Configuration,
            LokiError::MixedLength { .. } => ErrorKind::Configuration,
            LokiError::UnsupportedFilter { .. } => ErrorKind::Translation,
            LokiError::MissingLabelFilter => ErrorKind::Translation,
            LokiError::UnsupportedInsertOp => ErrorKind::Translation,
            LokiError::NotImplemented { .. } => ErrorKind::Translation,
            LokiError::UnsupportedPartition { .. } => ErrorKind::Transport,
            LokiError::ConnectionFailed { .. } => ErrorKind::Transport,
            LokiError::Transport { .. } => ErrorKind::Transport,
            LokiError::RequestFailed { .. } => ErrorKind::Transport,
            LokiError::InputFailed { .. } => ErrorKind::Transport,
            LokiError::PushFailed { .. } => ErrorKind::Transport,
            LokiError::NullTimestamp { .. } => ErrorKind::Transport,
            LokiError::NullLabelKey { .. } => ErrorKind::Transport,
            LokiError::OutOfOrder => ErrorKind::Transport,
            LokiError::MalformedBody { .. } => ErrorKind::Decode,
            LokiError::Decode { .. } => ErrorKind::Decode,
        }
    }
}

/// `, text: ` and the text of an answer, where there is one.
pub open spec fn answer_text(body: Option<String>) -> Seq<char> {
    match body {
        Some(text) => ", text: "@ + text@,
        None => Seq::empty(),
    }
}

/// What an error says.
pub open spec fn message_text(e: LokiError) -> Seq<char> {
    match e {
        LokiError::ProjectionOutOfBounds { index, fields } => "project index "@ + decimal_int(
            index as int,
        ) + " out of bounds, max field "@ + decimal_int(fields as int),
        LokiError::DuplicateProjection { index } => "project index "@ + decimal_int(index as int)
            + " is given twice"@,
        LokiError::SchemaMismatch => "input exec schema not matched"@,
        LokiError::ReservedLabel => "Labels should not contains timestamp or line"@,
        LokiError::ArgumentCount { expected, found } => "map_get function requires "@
            + decimal_int(expected as int) + " arguments, got "@ + decimal_int(found as int),
        LokiError::NotAMap => "Expected a Map type"@,
        LokiError::NotAStruct => "Expected a Struct type"@,
        LokiError::InvalidMapColumn => "The offsets of the map column do not fit its entries"@,
        LokiError::MixedLength { expected, found } => "Arguments has mixed length. Expected length: "@
            + decimal_int(expected as int) + ", found length: "@ + decimal_int(found as int),
        LokiError::UnsupportedFilter { position } => "Unsupported filter at position "@
            + decimal_int(position as int),
        LokiError::MissingLabelFilter => "No label filters or default label provided"@,
        LokiError::UnsupportedInsertOp => "Only support append insert operation"@,
        LokiError::UnsupportedPartition { partition } => "Partition "@ + decimal_int(
            partition as int,
        ) + " is not supported: there is only partition 0"@,
        LokiError::ConnectionFailed { status } => "Failed to connect to loki with status "@
            + decimal_int(status as int),
        LokiError::Transport { message } => "Failed to send request to loki: "@ + message@,
        LokiError::RequestFailed { status, url, body } => "Request to loki failed with status "@
            + decimal_int(status as int) + ", url: "@ + url@ + answer_text(body),
        LokiError::InputFailed { message } => "Failed to read the rows to insert: "@ + message@,
        LokiError::PushFailed { status, body } => "Failed to send push request to loki with status "@
            + decimal_int(status as int) + answer_text(body),
        LokiError::NullTimestamp { row } => "timestamp should not be null, row "@ + decimal_int(
            row as int,
        ),
        LokiError::NullLabelKey { row } => "label key should not be null, row "@ + decimal_int(
            row as int,
        ),
        LokiError::MalformedBody { message } => "Failed to decode the response of loki: "@
            + message@,
        LokiError::Decode { fault } => match fault {
            DecodeFault::Malformed => "Failed to decode loki physical plan node"@,
            DecodeFault::NoPlanType => "Failed to decode loki physical plan node due to physical plan type is none"@,
        },
        LokiError::InputCount { found } => "LokiLogInsertExec only support one input, got "@
            + decimal_int(found as int),
        LokiError::NotImplemented { name } => "LokiPhysicalCodec does not support encoding "@
            + name@,
        LokiError::OutOfOrder => "The event does not fit the state of the operator"@,
    }
}

/// `head`, then `number` in decimal, then `tail`.
fn with_number(head: &str, number: usize, tail: &str) -> (out: String)
    ensures
        out@ == head@ + decimal_int(number as int) + tail@,
{
    let mut out = String::from_str(head);
    out.append(usize_to_decimal(number).as_str());
    out.append(tail);
    out
}

/// Appends `, text: ` and the text of an answer, where there is one.
fn append_answer(out: &mut String, body: &Option<String>)
    ensures
        final(out)@ == old(out)@ + answer_text(*body),
{
    match body {
        Some(text) => {
            out.append(", text: ");
            out.append(text.as_str());
            assert(final(out)@ =~= old(out)@ + (", text: "@ + text@));
        },
        None => {
            assert(old(out)@ + Seq::<char>::empty() =~= old(out)@);
        },
    }
}

/// `head` and `tail`, one after the other.
fn with_text(head: &str, tail: &str) -> (out: String)
    ensures
        out@ == head@ + tail@,
{
    let mut out = String::from_str(head);
    out.append(tail);
    out
}

impl LokiError {
    /// What the error says, for the one who asked.
    pub fn message(&self) -> (out: String)
        ensures
            out@ == message_text(*self),
    {
        match self {
            LokiError::ProjectionOutOfBounds { index, fields } => {
                let mut out = with_number("project index ", *index, " out of bounds, max field ");
                out.append(usize_to_decimal(*fields).as_str());
                out
            },
            LokiError::DuplicateProjection { index } => with_number(
                "project index ",
                *index,
                " is given twice",
            ),
            LokiError::SchemaMismatch => String::from_str("input exec schema not matched"),
            LokiError::ReservedLabel => String::from_str(
                "Labels should not contains timestamp or line",
            ),
            LokiError::ArgumentCount { expected, found } => {
                let mut out = with_number("map_get function requires ", *expected, " arguments, got ");
                out.append(usize_to_decimal(*found).as_str());
                out
            },
            LokiError::NotAMap => String::from_str("Expected a Map type"),
            LokiError::NotAStruct => String::from_str("Expected a Struct type"),
            LokiError::InvalidMapColumn => String::from_str(
                "The offsets of the map column do not fit its entries",
            ),
            LokiError::MixedLength { expected, found } => {
                let mut out = with_number(
                    "Arguments has mixed length. Expected length: ",
                    *expected,
                    ", found length: ",
                );
                out.append(usize_to_decimal(*found).as_str());
                out
            },
            LokiError::UnsupportedFilter { position } => {
                let out = with_number("Unsupported filter at position ", *position, "");
                proof {
                    reveal_strlit("");
                    assert(out@ =~= "Unsupported filter at position "@ + decimal_int(
                        *position as int,
                    ));
                }
                out
            },
            LokiError::MissingLabelFilter => String::from_str(
                "No label filters or default label provided",
            ),
            LokiError::UnsupportedInsertOp => String::from_str(
                "Only support append insert operation",
            ),
            LokiError::UnsupportedPartition { partition } => with_number(
                "Partition ",
                *partition,
                " is not supported: there is only partition 0",
            ),
            LokiError::ConnectionFailed { status } => {
                let out = with_number("Failed to connect to loki with status ", *status as usize, "");
                proof {
                    reveal_strlit("");
                    assert(out@ =~= "Failed to connect to loki with status "@ + decimal_int(
                        *status as int,
                    ));
                }
                out
            },
            LokiError::Transport { message } => with_text(
                "Failed to send request to loki: ",
                message.as_str(),
            ),
            LokiError::RequestFailed { status, url, body } => {
                let mut out = with_number(
                    "Request to loki failed with status ",
                    *status as usize,
                    ", url: ",
                );
                out.append(url.as_str());
                append_answer(&mut out, body);
                out
            },
            LokiError::InputFailed { message } => with_text(
                "Failed to read the rows to insert: ",
                message.as_str(),
            ),
            LokiError::PushFailed { status, body } => {
                let mut out = with_number(
                    "Failed to send push request to loki with status ",
                    *status as usize,
                    "",
                );
                proof {
                    reveal_strlit("");
                    assert(out@ =~= "Failed to send push request to loki with status "@
                        + decimal_int(*status as int));
                }
                append_answer(&mut out, body);
                out
            },
            LokiError::NullTimestamp { row } => {
                let out = with_number("timestamp should not be null, row ", *row, "");
                proof {
                    reveal_strlit("");
                    assert(out@ =~= "timestamp should not be null, row "@ + decimal_int(
                        *row as int,
                    ));
                }
                out
            },
            LokiError::NullLabelKey { row } => {
                let out = with_number("label key should not be null, row ", *row, "");
                proof {
                    reveal_strlit("");
                    assert(out@ =~= "label key should not be null, row "@ + decimal_int(
                        *row as int,
                    ));
                }
                out
            },
            LokiError::MalformedBody { message } => with_text(
                "Failed to decode the response of loki: ",
                message.as_str(),
            ),
            LokiError::Decode { fault } => match fault {
                DecodeFault::Malformed => String::from_str(
                    "Failed to decode loki physical plan node",
                ),
                DecodeFault::NoPlanType => String::from_str(
                    "Failed to decode loki physical plan node due to physical plan type is none",
                ),
            },
            LokiError::InputCount { found } => {
                let out = with_number("LokiLogInsertExec only support one input, got ", *found, "");
                proof {
                    reveal_strlit("");
                    assert(out@ =~= "LokiLogInsertExec only support one input, got "@
                        + decimal_int(*found as int));
                }
                out
            },
            LokiError::NotImplemented { name } => with_text(
                "LokiPhysicalCodec does not support encoding ",
                name.as_str(),
            ),
            LokiError::OutOfOrder => String::from_str(
                "The event does not fit the state of the operator",
            ),
        }
    }
}

} // verus!
