use vstd::prelude::*;
use vstd::string::*;

use crate::error::LokiError;
use crate::expr::text_of;
use crate::scan::{is_success, status_is_success};
use crate::schema::{
    check_log_table_schema, count_schema, is_count_schema, is_log_table_schema, Field,
};
use crate::text::{decimal_int, i64_to_decimal, usize_to_decimal};

verus! {

/// A label set as a list of names and values.
pub type Pairs = Seq<(Seq<char>, Seq<char>)>;

/// The mapping that a list of names and values stands for: each name with
/// the value that comes last for it.
pub open spec fn pairs_map(pairs: Pairs) -> Map<Seq<char>, Seq<char>>
    decreases pairs.len(),
{
    if pairs.len() == 0 {
        Map::empty()
    } else {
        pairs_map(pairs.drop_last()).insert(pairs.last().0, pairs.last().1)
    }
}

/// Whether no name occurs twice.
pub open spec fn names_unique(pairs: Pairs) -> bool {
    forall|i: int, j: int|
        0 <= i < pairs.len() && 0 <= j < pairs.len() && i != j ==> pairs[i].0 != pairs[j].0
}

/// The texts of a list of owned names and values.
pub open spec fn pair_views(pairs: Seq<(String, String)>) -> Pairs {
    pairs.map_values(|p: (String, String)| (p.0@, p.1@))
}

/// The entries of a label map as names and values, a null value as the
/// empty text. Meant for entries whose names are not null.
pub open spec fn entry_views(entries: Seq<(Option<String>, Option<String>)>) -> Pairs {
    entries.map_values(|e: (Option<String>, Option<String>)| (text_of(e.0), text_of(e.1)))
}

/// Whether some entry has no name.
pub open spec fn has_null_key(entries: Seq<(Option<String>, Option<String>)>) -> bool {
    exists|i: int| 0 <= i < entries.len() && (#[trigger] entries[i]).0 is None
}

/// Replacing the value of a name that occurs once is inserting into the
/// mapping.
proof fn lemma_update_is_insert(pairs: Pairs, at: int, value: Seq<char>)
    requires
        names_unique(pairs),
        0 <= at < pairs.len(),
    ensures
        pairs_map(pairs.update(at, (pairs[at].0, value))) == pairs_map(pairs).insert(
            pairs[at].0,
            value,
        ),
        names_unique(pairs.update(at, (pairs[at].0, value))),
    decreases pairs.len(),
{
    let name = pairs[at].0;
    let updated = pairs.update(at, (name, value));
    if at == pairs.len() - 1 {
        assert(updated.drop_last() =~= pairs.drop_last());
        assert(pairs_map(pairs.drop_last()).insert(name, pairs.last().1).insert(name, value)
            =~= pairs_map(pairs.drop_last()).insert(name, value));
    } else {
        let rest = pairs.drop_last();
        assert(names_unique(rest));
        lemma_update_is_insert(rest, at, value);
        assert(updated.drop_last() =~= rest.update(at, (name, value)));
        assert(updated.last() == pairs.last());
        assert(pairs.last().0 != name);
        assert(pairs_map(rest).insert(name, value).insert(pairs.last().0, pairs.last().1)
            =~= pairs_map(rest).insert(pairs.last().0, pairs.last().1).insert(name, value));
    }
}

/// Turns the entries of one label map into a label set: each name once,
/// with the value that comes last for it, and a null value as the empty
/// text. Fails where an entry has no name.
pub fn struct_arr_to_map(entries: &Vec<(Option<String>, Option<String>)>) -> (out: Option<
    Vec<(String, String)>,
>)
    ensures
        out is None <==> has_null_key(entries@),
        out matches Some(set) ==> {
            &&& names_unique(pair_views(set@))
            &&& pairs_map(pair_views(set@)) == pairs_map(entry_views(entries@))
        },
{
    let mut set: Vec<(String, String)> = Vec::new();
    let mut i: usize = 0;
    assert(pair_views(set@) =~= Seq::empty());
    assert(entry_views(entries@.take(0)) =~= Seq::empty());
    while i < entries.len()
        invariant
            i <= entries.len(),
            forall|j: int| 0 <= j < i ==> (#[trigger] entries@[j]).0 is Some,
            names_unique(pair_views(set@)),
            pairs_map(pair_views(set@)) == pairs_map(entry_views(entries@.take(i as int))),
        decreases entries.len() - i,
    {
        let entry = &entries[i];
        let key = match &entry.0 {
            Some(k) => k.clone(),
            None => {
                return None;
            },
        };
        let value = match &entry.1 {
            Some(v) => v.clone(),
            None => String::new(),
        };
        proof {
            let now = entry_views(entries@.take(i + 1));
            assert(now.drop_last() =~= entry_views(entries@.take(i as int)));
            assert(now.last() == (key@, value@));
        }
        let ghost before = pair_views(set@);
        let mut at: usize = 0;
        while at < set.len() && set[at].0 != key
            invariant
                at <= set.len(),
                forall|j: int| 0 <= j < at ==> set@[j].0@ != key@,
            decreases set.len() - at,
        {
            at = at + 1;
        }
        if at < set.len() {
            proof {
                assert(before[at as int].0 == key@);
                lemma_update_is_insert(before, at as int, value@);
            }
            set.set(at, (key, value));
            assert(pair_views(set@) =~= before.update(at as int, (key@, value@)));
        } else {
            set.push((key, value));
            assert(pair_views(set@) =~= before.push((key@, value@)));
            assert(pair_views(set@).drop_last() =~= before);
            assert(names_unique(pair_views(set@))) by {
                assert forall|a: int, b: int|
                    0 <= a < set@.len() && 0 <= b < set@.len() && a != b implies pair_views(
                    set@,
                )[a].0 != pair_views(set@)[b].0 by {
                    if a < before.len() && b < before.len() {
                        assert(before[a].0 != before[b].0);
                    }
                }
            }
        }
        i = i + 1;
    }
    assert(entries@.take(entries.len() as int) =~= entries@);
    Some(set)
}

/// One row of a log table.
#[derive(Debug, Clone, PartialEq, Eq)]
pub struct LogRow {
    pub timestamp: Option<i64>,
    /// The entries of the label map, in storage order; `None` where the
    /// row has no label map.
    pub labels: Option<Vec<(Option<String>, Option<String>)>>,
    pub line: Option<String>,
}

/// One stream of a write: a label set, and timestamps with their lines.
#[derive(Debug, Clone, PartialEq, Eq)]
pub struct LogStream {
    pub stream: Vec<(String, String)>,
    pub values: Vec<(String, String)>,
}

/// The body of a write.
#[derive(Debug, Clone, PartialEq, Eq)]
pub struct LogStreams {
    pub streams: Vec<LogStream>,
}

/// What keeps a row from being written, if anything does: a missing
/// timestamp or, failing that, a label without a name.
pub open spec fn row_fault(row: LogRow, at: usize) -> Option<LokiError> {
    if row.timestamp is None {
        Some(LokiError::NullTimestamp { row: at })
    } else if row.labels matches Some(entries) && has_null_key(entries@) {
        Some(LokiError::NullLabelKey { row: at })
    } else {
        None
    }
}

/// The label set of a row; a row without a label map has no labels.
pub open spec fn row_labels(row: LogRow) -> Map<Seq<char>, Seq<char>> {
    match row.labels {
        Some(entries) => pairs_map(entry_views(entries@)),
        None => Map::empty(),
    }
}

/// The timestamp of a row in decimal, and its line, a null line as the
/// empty text.
pub open spec fn row_value(row: LogRow) -> (Seq<char>, Seq<char>) {
    (decimal_int(row.timestamp->0 as int), text_of(row.line))
}

/// Whether `stream` is what is written for `row`: a stream of its own,
/// with the label set of the row and the one value of the row.
pub open spec fn is_stream_of(stream: LogStream, row: LogRow) -> bool {
    &&& names_unique(pair_views(stream.stream@))
    &&& pairs_map(pair_views(stream.stream@)) == row_labels(row)
    &&& pair_views(stream.values@) == seq![row_value(row)]
}

/// Whether `streams` is what is written for `rows`, row by row.
pub open spec fn are_streams_of(streams: Seq<LogStream>, rows: Seq<LogRow>) -> bool {
    &&& streams.len() == rows.len()
    &&& forall|i: int| 0 <= i < rows.len() ==> is_stream_of(#[trigger] streams[i], rows[i])
}

/// Whether `at` is the position of the first row that cannot be written.
pub open spec fn is_first_fault(rows: Seq<LogRow>, at: int) -> bool {
    &&& 0 <= at < rows.len()
    &&& row_fault(rows[at], at as usize) is Some
    &&& forall|i: int| 0 <= i < at ==> row_fault(#[trigger] rows[i], i as usize) is None
}

/// Whether every row can be written.
pub open spec fn no_fault(rows: Seq<LogRow>) -> bool {
    forall|i: int| 0 <= i < rows.len() ==> row_fault(#[trigger] rows[i], i as usize) is None
}

/// Turns one row into the stream that is written for it.
fn stream_of_row(row: &LogRow, at: usize) -> (out: Result<LogStream, LokiError>)
    ensures
        match out {
            Ok(stream) => row_fault(*row, at) is None && is_stream_of(stream, *row),
            Err(e) => row_fault(*row, at) == Some(e),
        },
{
    let timestamp = match row.timestamp {
        Some(t) => t,
        None => {
            return Err(LokiError::NullTimestamp { row: at });
        },
    };
    let stream = match &row.labels {
        Some(entries) => match struct_arr_to_map(entries) {
            Some(set) => set,
            None => {
                return Err(LokiError::NullLabelKey { row: at });
            },
        },
        None => {
            let set: Vec<(String, String)> = Vec::new();
            assert(pair_views(set@) =~= Seq::empty());
            set
        },
    };
    let line = match &row.line {
        Some(l) => l.clone(),
        None => String::new(),
    };
    let mut values: Vec<(String, String)> = Vec::new();
    values.push((i64_to_decimal(timestamp), line));
    assert(pair_views(values@) =~= seq![row_value(*row)]);
    Ok(LogStream { stream, values })
}

/// Turns the rows of a batch into the streams of a write. Every row
/// becomes a stream of its own, in the order of the rows, also where two
/// rows have the same label set. Fails at the first row without a
/// timestamp or with a label without a name.
pub fn build_log_streams(batch: &Vec<LogRow>) -> (out: Result<LogStreams, LokiError>)
    ensures
        match out {
            Ok(body) => no_fault(batch@) && are_streams_of(body.streams@, batch@),
            Err(e) => exists|at: int| #[trigger]
                is_first_fault(batch@, at) && row_fault(batch@[at], at as usize) == Some(e),
        },
{
    let mut streams: Vec<LogStream> = Vec::new();
    let mut i: usize = 0;
    while i < batch.len()
        invariant
            i <= batch.len(),
            streams@.len() == i,
            forall|j: int| 0 <= j < i ==> row_fault(#[trigger] batch@[j], j as usize) is None,
            forall|j: int| 0 <= j < i ==> is_stream_of(#[trigger] streams@[j], batch@[j]),
        decreases batch.len() - i,
    {
        match stream_of_row(&batch[i], i) {
            Ok(stream) => {
                streams.push(stream);
            },
            Err(e) => {
                assert(is_first_fault(batch@, i as int));
                return Err(e);
            },
        }
        i = i + 1;
    }
    Ok(LogStreams { streams })
}

/// How well a number of rows is known.
#[derive(Clone, Copy, PartialEq, Eq, Structural, Debug)]
pub enum Precision {
    Exact(usize),
    Inexact(usize),
    Absent,
}

/// When a plan gives its rows: as they come, at the end, or both.
#[derive(Clone, Copy, PartialEq, Eq, Structural, Debug)]
pub enum EmissionType {
    Incremental,
    Final,
    Both,
}

/// Whether a plan ends.
#[derive(Clone, Copy, PartialEq, Eq, Structural, Debug)]
pub enum Boundedness {
    Bounded,
    Unbounded { requires_infinite_memory: bool },
}

/// What an insert reads of the plan that gives it its rows.
#[derive(Debug, PartialEq, Eq)]
pub struct InputPlan {
    pub schema: Vec<Field>,
    pub emission: EmissionType,
    pub boundedness: Boundedness,
    /// The estimated number of rows; `None` where no estimate can be had.
    pub num_rows: Option<Precision>,
}

/// What the engine is told of an operator.
#[derive(Debug, PartialEq, Eq)]
pub struct PlanProperties {
    pub schema: Vec<Field>,
    pub partitions: usize,
    pub emission: EmissionType,
    pub boundedness: Boundedness,
}

/// A write of the rows of one input plan to the log store.
#[derive(Debug, PartialEq, Eq)]
pub struct LokiLogInsertExec {
    pub input: InputPlan,
    pub endpoint: String,
}

/// The path of the write endpoint.
pub open spec fn push_path() -> Seq<char> {
    "/loki/api/v1/push"@
}

/// How the estimated number of rows is displayed.
pub open spec fn rows_display(num_rows: Option<Precision>) -> Seq<char> {
    match num_rows {
        Some(Precision::Exact(n)) => ", rows="@ + decimal_int(n as int),
        Some(Precision::Inexact(n)) => ", rows~="@ + decimal_int(n as int),
        _ => Seq::empty(),
    }
}

/// How an insert is displayed: the endpoint, then the estimated number of
/// rows of the input where there is one.
pub open spec fn insert_display(endpoint: Seq<char>, num_rows: Option<Precision>) -> Seq<char> {
    "LokiLogInsertExec: endpoint="@ + endpoint + rows_display(num_rows)
}

impl LokiLogInsertExec {
    /// What holds of every insert that was built: the input has the schema
    /// of a log table.
    pub open spec fn wf(&self) -> bool {
        is_log_table_schema(self.input.schema@)
    }

    /// Builds the insert of the rows of `input`. Fails unless the input has
    /// exactly the schema of a log table.
    pub fn try_new(input: InputPlan, endpoint: String) -> (out: Result<Self, LokiError>)
        ensures
            match out {
                Ok(exec) => {
                    &&& is_log_table_schema(input.schema@)
                    &&& exec.input == input
                    &&& exec.endpoint == endpoint
                },
                Err(e) => !is_log_table_schema(input.schema@) && e == LokiError::SchemaMismatch,
            },
    {
        if !check_log_table_schema(&input.schema) {
            return Err(LokiError::SchemaMismatch);
        }
        Ok(LokiLogInsertExec { input, endpoint })
    }

    /// The insert of the rows of the first of `children` to the same
    /// endpoint.
    pub fn with_new_children(&self, children: Vec<InputPlan>) -> (out: Result<Self, LokiError>)
        requires
            children@.len() > 0,
        ensures
            match out {
                Ok(exec) => {
                    &&& is_log_table_schema(children@[0].schema@)
                    &&& exec.input == children@[0]
                    &&& exec.endpoint@ == self.endpoint@
                },
                Err(e) => !is_log_table_schema(children@[0].schema@) && e
                    == LokiError::SchemaMismatch,
            },
    {
        let mut children = children;
        let input = children.swap_remove(0);
        Self::try_new(input, self.endpoint.clone())
    }

    /// What the engine is told of the insert: it gives one count, in one
    /// partition, when and as long as its input does.
    pub fn properties(&self) -> (out: PlanProperties)
        ensures
            is_count_schema(out.schema@),
            out.partitions == 1,
            out.emission == self.input.emission,
            out.boundedness == self.input.boundedness,
    {
        PlanProperties {
            schema: count_schema(),
            partitions: 1,
            emission: self.input.emission,
            boundedness: self.input.boundedness,
        }
    }

    /// The line that describes the insert in a displayed plan.
    pub fn display(&self) -> (out: String)
        ensures
            out@ == insert_display(self.endpoint@, self.input.num_rows),
    {
        let mut out = String::from_str("LokiLogInsertExec: endpoint=");
        out.append(self.endpoint.as_str());
        let ghost head = out@;
        match self.input.num_rows {
            Some(Precision::Exact(n)) => {
                out.append(", rows=");
                out.append(usize_to_decimal(n).as_str());
                assert(out@ =~= head + (", rows="@ + decimal_int(n as int)));
            },
            Some(Precision::Inexact(n)) => {
                out.append(", rows~=");
                out.append(usize_to_decimal(n).as_str());
                assert(out@ =~= head + (", rows~="@ + decimal_int(n as int)));
            },
            _ => {
                assert(out@ =~= head + Seq::<char>::empty());
            },
        }
        out
    }
}

/// Where an insert stands. It starts as `Constructed`; `Completed` and
/// `Failed` are final.
#[derive(Clone, Copy, PartialEq, Eq, Structural, Debug)]
pub enum InsertState {
    Constructed,
    /// The rows of the input are being taken in.
    Draining,
    /// The write is on its way.
    Pushing,
    Completed,
    Failed,
}

/// A running insert: where it stands, the streams taken in so far, and,
/// once the input has ended, the number of rows that it gave.
#[derive(Debug, Clone, PartialEq, Eq)]
pub struct InsertRun {
    pub state: InsertState,
    pub streams: Vec<LogStream>,
    pub count: usize,
}

/// What happened to an insert.
#[derive(Debug, Clone, PartialEq, Eq)]
pub enum InsertEvent {
    /// The engine asks for the result of a partition.
    Execute { partition: usize },
    /// The input gave its next batch of rows.
    Batch { rows: Vec<LogRow> },
    /// The input failed.
    InputFailed { message: String },
    /// The input has no more rows.
    InputEnd,
    /// The store answered the write. `body` is the text of the answer
    /// where it could be read.
    Response { status: u16, body: Option<String> },
    /// The write could not be sent.
    TransportFailed { message: String },
}

/// The write request of an insert: a `POST` of `body` to `url`.
#[derive(Debug, Clone, PartialEq, Eq)]
pub struct PushRequest {
    pub url: String,
    pub body: LogStreams,
}

/// What an insert does next.
#[derive(Debug, Clone, PartialEq, Eq)]
pub enum InsertAction {
    /// Ask the input for its next batch and report it.
    Pull,
    /// Send the write and report the answer.
    Push(PushRequest),
    /// Give the one row of the result: the number of rows taken in.
    Emit { count: usize },
    /// End with this error.
    Fail(LokiError),
}

/// The state after `event` in `state`.
pub open spec fn insert_next_state(state: InsertState, event: InsertEvent) -> InsertState {
    match (state, event) {
        (InsertState::Constructed, InsertEvent::Execute { partition }) => if partition == 0 {
            InsertState::Draining
        } else {
            InsertState::Failed
        },
        (InsertState::Draining, InsertEvent::Batch { rows }) => if no_fault(rows@) {
            InsertState::Draining
        } else {
            InsertState::Failed
        },
        (InsertState::Draining, InsertEvent::InputEnd) => InsertState::Pushing,
        (InsertState::Pushing, InsertEvent::Response { status, .. }) => if is_success(status) {
            InsertState::Completed
        } else {
            InsertState::Failed
        },
        (InsertState::Completed, _) => InsertState::Completed,
        _ => InsertState::Failed,
    }
}

/// An insert that is completed stays so, and so does one that has failed.
pub proof fn lemma_insert_final_states(event: InsertEvent)
    ensures
        insert_next_state(InsertState::Completed, event) == InsertState::Completed,
        insert_next_state(InsertState::Failed, event) == InsertState::Failed,
{
}

/// Whether `after` and `action` are what follows `event` for an insert to
/// `endpoint` that stands at `before`.
pub open spec fn is_insert_step(
    endpoint: Seq<char>,
    before: InsertRun,
    event: InsertEvent,
    after: InsertRun,
    action: InsertAction,
) -> bool {
    &&& after.state == insert_next_state(before.state, event)
    &&& match (before.state, event) {
        (InsertState::Constructed, InsertEvent::Execute { partition }) => {
            &&& after.streams == before.streams
            &&& after.count == before.count
            &&& if partition == 0 {
                action is Pull
            } else {
                action == InsertAction::Fail(LokiError::UnsupportedPartition { partition })
            }
        },
        (InsertState::Draining, InsertEvent::Batch { rows }) => {
            &&& after.count == before.count
            &&& if no_fault(rows@) {
                &&& action is Pull
                &&& after.streams@.len() == before.streams@.len() + rows@.len()
                &&& after.streams@.subrange(0, before.streams@.len() as int) == before.streams@
                &&& are_streams_of(
                    after.streams@.subrange(
                        before.streams@.len() as int,
                        after.streams@.len() as int,
                    ),
                    rows@,
                )
            } else {
                &&& after.streams == before.streams
                &&& exists|at: int| #[trigger]
                    is_first_fault(rows@, at) && Some(action) == fail_with(
                        row_fault(rows@[at], at as usize),
                    )
            }
        },
        (InsertState::Draining, InsertEvent::InputFailed { message }) => {
            &&& after.streams == before.streams
            &&& after.count == before.count
            &&& action == InsertAction::Fail(LokiError::InputFailed { message })
        },
        (InsertState::Draining, InsertEvent::InputEnd) => {
            &&& after.streams@.len() == 0
            &&& after.count == before.streams@.len()
            &&& action matches InsertAction::Push(request)
            &&& request.url@ == endpoint + push_path()
            &&& request.body.streams == before.streams
        },
        (InsertState::Pushing, InsertEvent::Response { status, body }) => {
            &&& after.streams == before.streams
            &&& after.count == before.count
            &&& if is_success(status) {
                action == (InsertAction::Emit { count: before.count })
            } else {
                action == InsertAction::Fail(LokiError::PushFailed { status, body })
            }
        },
        (InsertState::Pushing, InsertEvent::TransportFailed { message }) => {
            &&& after.streams == before.streams
            &&& after.count == before.count
            &&& action == InsertAction::Fail(LokiError::Transport { message })
        },
        _ => {
            &&& after.streams == before.streams
            &&& after.count == before.count
            &&& action == InsertAction::Fail(LokiError::OutOfOrder)
        },
    }
}

/// The count that an insert gives is the number of rows that it took in,
/// whatever the store made of them: an insert that holds the streams of
/// some rows, takes in one more batch, sees its input end and gets an
/// answer of success gives the number of all these rows.
pub proof fn lemma_insert_counts_rows(
    endpoint: Seq<char>,
    held: InsertRun,
    rows: Vec<LogRow>,
    status: u16,
    body: Option<String>,
    taken: (InsertRun, InsertAction),
    ended: (InsertRun, InsertAction),
    answered: (InsertRun, InsertAction),
)
    requires
        held.state == InsertState::Draining,
        no_fault(rows@),
        is_success(status),
        is_insert_step(endpoint, held, InsertEvent::Batch { rows }, taken.0, taken.1),
        is_insert_step(endpoint, taken.0, InsertEvent::InputEnd, ended.0, ended.1),
        is_insert_step(
            endpoint,
            ended.0,
            InsertEvent::Response { status, body },
            answered.0,
            answered.1,
        ),
    ensures
        taken.1 is Pull,
        ended.1 matches InsertAction::Push(request) && request.body.streams@.len()
            == held.streams@.len() + rows@.len(),
        answered.1 == (InsertAction::Emit {
            count: (held.streams@.len() + rows@.len()) as usize,
        }),
        answered.0.state == InsertState::Completed,
{
}

/// The action that ends an insert with an error, where there is one.
pub open spec fn fail_with(e: Option<LokiError>) -> Option<InsertAction> {
    match e {
        Some(e) => Some(InsertAction::Fail(e)),
        None => None,
    }
}

impl LokiLogInsertExec {
    /// An insert that has not started.
    pub fn start(&self) -> (run: InsertRun)
        ensures
            run.state == InsertState::Constructed,
            run.streams@.len() == 0,
            run.count == 0,
    {
        InsertRun { state: InsertState::Constructed, streams: Vec::new(), count: 0 }
    }

    /// The address that the write is sent to.
    pub fn push_url(&self) -> (url: String)
        ensures
            url@ == self.endpoint@ + push_path(),
    {
        let mut url = self.endpoint.clone();
        url.append("/loki/api/v1/push");
        url
    }

    /// One step of a running insert: where it stands after `event`, and
    /// what to do next. The rows of every batch are taken in until the
    /// input ends; then all of them are sent in one write; and when the
    /// store has answered with success, the number of rows taken in is
    /// given. A row that cannot be written, a failing input, an answer
    /// other than success, and an event that does not fit the state end
    /// the insert.
    pub fn step(&self, run: InsertRun, event: InsertEvent) -> (out: (InsertRun, InsertAction))
        ensures
            is_insert_step(self.endpoint@, run, event, out.0, out.1),
    {
        let InsertRun { state, streams, count } = run;
        match state {
            InsertState::Constructed => match event {
                InsertEvent::Execute { partition } => {
                    if partition == 0 {
                        (
                            InsertRun { state: InsertState::Draining, streams, count },
                            InsertAction::Pull,
                        )
                    } else {
                        (
                            InsertRun { state: InsertState::Failed, streams, count },
                            InsertAction::Fail(LokiError::UnsupportedPartition { partition }),
                        )
                    }
                },
                _ => (
                    InsertRun { state: InsertState::Failed, streams, count },
                    InsertAction::Fail(LokiError::OutOfOrder),
                ),
            },
            InsertState::Draining => match event {
                InsertEvent::Batch { rows } => match build_log_streams(&rows) {
                    Ok(body) => {
                        let mut streams = streams;
                        let mut more = body.streams;
                        let ghost held = streams@;
                        let ghost new = more@;
                        streams.append(&mut more);
                        assert(streams@.subrange(0, held.len() as int) =~= held);
                        assert(streams@.subrange(held.len() as int, streams@.len() as int)
                            =~= new);
                        (
                            InsertRun { state: InsertState::Draining, streams, count },
                            InsertAction::Pull,
                        )
                    },
                    Err(e) => (
                        InsertRun { state: InsertState::Failed, streams, count },
                        InsertAction::Fail(e),
                    ),
                },
                InsertEvent::InputFailed { message } => (
                    InsertRun { state: InsertState::Failed, streams, count },
                    InsertAction::Fail(LokiError::InputFailed { message }),
                ),
                InsertEvent::InputEnd => {
                    let taken = streams.len();
                    let request = PushRequest {
                        url: self.push_url(),
                        body: LogStreams { streams },
                    };
                    (
                        InsertRun {
                            state: InsertState::Pushing,
                            streams: Vec::new(),
                            count: taken,
                        },
                        InsertAction::Push(request),
                    )
                },
                _ => (
                    InsertRun { state: InsertState::Failed, streams, count },
                    InsertAction::Fail(LokiError::OutOfOrder),
                ),
            },
            InsertState::Pushing => match event {
                InsertEvent::Response { status, body } => {
                    if status_is_success(status) {
                        (
                            InsertRun { state: InsertState::Completed, streams, count },
                            InsertAction::Emit { count },
                        )
                    } else {
                        (
                            InsertRun { state: InsertState::Failed, streams, count },
                            InsertAction::Fail(LokiError::PushFailed { status, body }),
                        )
                    }
                },
                InsertEvent::TransportFailed { message } => (
                    InsertRun { state: InsertState::Failed, streams, count },
                    InsertAction::Fail(LokiError::Transport { message }),
                ),
                _ => (
                    InsertRun { state: InsertState::Failed, streams, count },
                    InsertAction::Fail(LokiError::OutOfOrder),
                ),
            },
            InsertState::Completed => (
                InsertRun { state: InsertState::Completed, streams, count },
                InsertAction::Fail(LokiError::OutOfOrder),
            ),
            InsertState::Failed => (
                InsertRun { state: InsertState::Failed, streams, count },
                InsertAction::Fail(LokiError::OutOfOrder),
            ),
        }
    }
}

} // verus!
