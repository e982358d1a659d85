use vstd::prelude::*;
use vstd::string::*;

use crate::error::LokiError;
use crate::expr::opt_text;
use crate::insert::{Boundedness, EmissionType, PlanProperties};
use crate::schema::{
    copy_fields, is_log_table_schema, log_table_schema, same_field, same_schema, Field,
    LOG_TABLE_COLUMNS,
};
use crate::text::{decimal_int, i64_to_decimal, join, join_spec, usize_to_decimal, views};

verus! {

/// The configuration of a scan, as values: what two scans must share to be
/// the same scan.
pub struct ScanConfig {
    pub endpoint: Seq<char>,
    pub log_query: Seq<char>,
    pub start: Option<i64>,
    pub end: Option<i64>,
    pub projection: Option<Seq<usize>>,
    pub limit: Option<usize>,
}

/// A bounded read of the log store: where to ask, what to ask for, and
/// which columns and how many rows to give back. Fixed once built.
#[derive(Debug, Clone, PartialEq, Eq)]
pub struct LokiLogScanExec {
    pub endpoint: String,
    pub log_query: String,
    pub start: Option<i64>,
    pub end: Option<i64>,
    pub projection: Option<Vec<usize>>,
    pub limit: Option<usize>,
}

/// Whether the index at `at` comes before `at` already.
pub open spec fn comes_again(projection: Seq<usize>, at: int) -> bool {
    exists|j: int| 0 <= j < at && #[trigger] projection[j] == projection[at]
}

/// What is wrong with the index at `at` of a projection on a schema of
/// `fields` columns, if anything is: the schema does not have the column,
/// or the projection has named it before.
pub open spec fn index_fault(projection: Seq<usize>, fields: usize, at: int) -> Option<LokiError> {
    if projection[at] >= fields {
        Some(LokiError::ProjectionOutOfBounds { index: projection[at], fields })
    } else if comes_again(projection, at) {
        Some(LokiError::DuplicateProjection { index: projection[at] })
    } else {
        None
    }
}

/// Whether `at` is the position of the first index of `projection` with
/// which something is wrong.
pub open spec fn is_first_index_fault(projection: Seq<usize>, fields: usize, at: int) -> bool {
    &&& 0 <= at < projection.len()
    &&& index_fault(projection, fields, at) is Some
    &&& forall|i: int| 0 <= i < at ==> #[trigger] index_fault(projection, fields, i) is None
}

/// Whether `e` says what is wrong with the first index of `projection`
/// with which something is wrong.
pub open spec fn is_projection_error(e: LokiError, projection: Seq<usize>, fields: usize) -> bool {
    exists|at: int| #[trigger]
        is_first_index_fault(projection, fields, at) && index_fault(projection, fields, at)
            == Some(e)
}

/// Whether a schema of `fields` columns has every column that `indices`
/// ask for, and `indices` ask for none twice.
pub open spec fn indices_fit(indices: Seq<usize>, fields: int) -> bool {
    &&& forall|i: int| 0 <= i < indices.len() ==> (#[trigger] indices[i]) < fields
    &&& forall|i: int, j: int| 0 <= i < j < indices.len() ==> indices[i] != indices[j]
}

/// Whether `projection` fits a schema of `fields` columns: the schema has
/// every column that it asks for, and it asks for none twice. No
/// projection asks for every column once.
pub open spec fn projection_fits(projection: Option<Seq<usize>>, fields: int) -> bool {
    match projection {
        Some(p) => indices_fit(p, fields),
        None => true,
    }
}

/// A projection that was refused does not fit.
pub proof fn lemma_refused_projection(e: LokiError, projection: Seq<usize>, fields: usize)
    requires
        is_projection_error(e, projection, fields),
    ensures
        !projection_fits(Some(projection), fields as int),
{
    let at = choose|at: int| #[trigger] is_first_index_fault(projection, fields, at);
    assert(is_first_index_fault(projection, fields, at));
    if indices_fit(projection, fields as int) {
        assert(projection[at] < fields as int);
        let j = choose|j: int| 0 <= j < at && #[trigger] projection[j] == projection[at];
        assert(projection[j] != projection[at]);
    }
}

/// A projection without a fault fits.
pub proof fn lemma_faultless_projection(projection: Seq<usize>, fields: usize)
    requires
        forall|i: int|
            0 <= i < projection.len() ==> #[trigger] index_fault(projection, fields, i) is None,
    ensures
        projection_fits(Some(projection), fields as int),
{
    assert forall|i: int| 0 <= i < projection.len() implies (#[trigger] projection[i])
        < fields by {
        assert(index_fault(projection, fields, i) is None);
    }
    assert forall|i: int, j: int| 0 <= i < j < projection.len() implies projection[i]
        != projection[j] by {
        assert(index_fault(projection, fields, j) is None);
        if projection[i] == projection[j] {
            assert(comes_again(projection, j));
        }
    }
}

/// The view of an optional projection.
pub open spec fn opt_indices(projection: Option<Vec<usize>>) -> Option<Seq<usize>> {
    match projection {
        Some(p) => Some(p@),
        None => None,
    }
}

/// Whether `index` is among the first `before` indices of `projection`.
fn named_before(projection: &Vec<usize>, before: usize, index: usize) -> (yes: bool)
    requires
        before <= projection@.len(),
    ensures
        yes == exists|j: int| 0 <= j < before && #[trigger] projection@[j] == index,
{
    let mut j: usize = 0;
    while j < before
        invariant
            j <= before <= projection@.len(),
            forall|k: int| 0 <= k < j ==> projection@[k] != index,
        decreases before - j,
    {
        if projection[j] == index {
            return true;
        }
        j = j + 1;
    }
    false
}

/// Checks a projection against a schema of `fields` columns, and says what
/// is wrong with the first index with which something is.
pub fn check_projection(projection: Option<&Vec<usize>>, fields: usize) -> (out: Result<
    (),
    LokiError,
>)
    ensures
        match out {
            Ok(()) => projection_fits(
                match projection {
                    Some(p) => Some(p@),
                    None => None,
                },
                fields as int,
            ),
            Err(e) => projection matches Some(p) && is_projection_error(e, p@, fields),
        },
{
    match projection {
        None => Ok(()),
        Some(p) => {
            let mut i: usize = 0;
            while i < p.len()
                invariant
                    i <= p.len(),
                    projection == Some(p),
                    forall|j: int| 0 <= j < i ==> #[trigger] index_fault(p@, fields, j) is None,
                decreases p.len() - i,
            {
                if p[i] >= fields {
                    assert(is_first_index_fault(p@, fields, i as int));
                    return Err(LokiError::ProjectionOutOfBounds { index: p[i], fields });
                }
                if named_before(p, i, p[i]) {
                    assert(comes_again(p@, i as int));
                    assert(is_first_index_fault(p@, fields, i as int));
                    return Err(LokiError::DuplicateProjection { index: p[i] });
                }
                assert(!comes_again(p@, i as int));
                i = i + 1;
            }
            proof {
                lemma_faultless_projection(p@, fields);
            }
            Ok(())
        },
    }
}

/// How many of the indices of `projection` are less than `index`.
pub open spec fn count_less(projection: Seq<usize>, index: usize) -> nat
    decreases projection.len(),
{
    if projection.len() == 0 {
        0
    } else {
        count_less(projection.drop_last(), index) + if projection.last() < index {
            1nat
        } else {
            0nat
        }
    }
}

/// Where the columns of a projection stand among the columns that were
/// asked for, taken in the order of the table: for each index of the
/// projection, how many of its indices are less.
pub open spec fn table_order(projection: Seq<usize>) -> Seq<usize> {
    Seq::new(projection.len(), |i: int| count_less(projection, projection[i]) as usize)
}

/// No more indices are counted than there are.
proof fn lemma_count_less_bound(projection: Seq<usize>, index: usize)
    ensures
        count_less(projection, index) <= projection.len(),
    decreases projection.len(),
{
    if projection.len() > 0 {
        lemma_count_less_bound(projection.drop_last(), index);
    }
}

/// For each column of a projection, its place among the projected columns
/// in the order of the table.
pub fn columns_in_table_order(projection: &Vec<usize>) -> (order: Vec<usize>)
    ensures
        order@ == table_order(projection@),
{
    let mut order: Vec<usize> = Vec::new();
    let mut i: usize = 0;
    while i < projection.len()
        invariant
            i <= projection.len(),
            order@.len() == i,
            forall|k: int|
                0 <= k < i ==> order@[k] == count_less(projection@, projection@[k]) as usize,
        decreases projection.len() - i,
    {
        let index = projection[i];
        let mut less: usize = 0;
        let mut j: usize = 0;
        while j < projection.len()
            invariant
                j <= projection.len(),
                less == count_less(projection@.take(j as int), index),
                less <= j,
            decreases projection.len() - j,
        {
            proof {
                assert(projection@.take(j + 1).drop_last() =~= projection@.take(j as int));
                assert(projection@.take(j + 1).last() == projection@[j as int]);
            }
            if projection[j] < index {
                less = less + 1;
            }
            j = j + 1;
        }
        assert(projection@.take(projection.len() as int) =~= projection@);
        order.push(less);
        i = i + 1;
    }
    assert(order@ =~= table_order(projection@));
    order
}

/// Whether `out` holds the fields of `schema` at `indices`, in their order.
pub open spec fn is_selection(out: Seq<Field>, schema: Seq<Field>, indices: Seq<usize>) -> bool {
    &&& out.len() == indices.len()
    &&& forall|i: int|
        0 <= i < indices.len() ==> same_field(schema[indices[i] as int], #[trigger] out[i])
}

/// Whether `out` is `schema` under `projection`: the fields that the
/// projection asks for, in its order, and all fields where there is none.
pub open spec fn is_projected(
    out: Seq<Field>,
    schema: Seq<Field>,
    projection: Option<Seq<usize>>,
) -> bool {
    match projection {
        Some(p) => is_selection(out, schema, p),
        None => same_schema(schema, out),
    }
}

/// The schema under a projection. Fails where the projection does not fit
/// the schema.
pub fn project_schema(schema: &Vec<Field>, projection: Option<&Vec<usize>>) -> (out: Result<
    Vec<Field>,
    LokiError,
>)
    ensures
        match out {
            Ok(fields) => {
                &&& projection_fits(
                    match projection {
                        Some(p) => Some(p@),
                        None => None,
                    },
                    schema@.len() as int,
                )
                &&& is_projected(
                    fields@,
                    schema@,
                    match projection {
                        Some(p) => Some(p@),
                        None => None,
                    },
                )
            },
            Err(e) => projection matches Some(p) && is_projection_error(e, p@, schema.len()),
        },
{
    match check_projection(projection, schema.len()) {
        Ok(()) => {},
        Err(e) => {
            return Err(e);
        },
    }
    match projection {
        None => Ok(copy_fields(schema)),
        Some(p) => {
            let mut out: Vec<Field> = Vec::new();
            let mut i: usize = 0;
            while i < p.len()
                invariant
                    i <= p.len(),
                    indices_fit(p@, schema@.len() as int),
                    out@.len() == i,
                    forall|k: int|
                        0 <= k < i ==> same_field(schema@[p@[k] as int], #[trigger] out@[k]),
                decreases p.len() - i,
            {
                assert(p@[i as int] < schema@.len());
                out.push(schema[p[i]].copy());
                i = i + 1;
            }
            Ok(out)
        },
    }
}

impl View for LokiLogScanExec {
    type V = ScanConfig;

    open spec fn view(&self) -> ScanConfig {
        ScanConfig {
            endpoint: self.endpoint@,
            log_query: self.log_query@,
            start: self.start,
            end: self.end,
            projection: opt_indices(self.projection),
            limit: self.limit,
        }
    }
}

impl LokiLogScanExec {
    /// What holds of every scan that was built: the log table has each
    /// column that the projection asks for.
    pub open spec fn wf(&self) -> bool {
        projection_fits(self@.projection, LOG_TABLE_COLUMNS as int)
    }

    /// Builds a scan of the log table. Fails where the projection asks for
    /// a column that the table does not have, and names the first such
    /// index; nothing is sent.
    pub fn try_new(
        endpoint: String,
        log_query: String,
        start: Option<i64>,
        end: Option<i64>,
        projection: Option<Vec<usize>>,
        limit: Option<usize>,
    ) -> (out: Result<Self, LokiError>)
        ensures
            match out {
                Ok(exec) => {
                    &&& projection_fits(opt_indices(projection), LOG_TABLE_COLUMNS as int)
                    &&& exec.wf()
                    &&& exec.endpoint == endpoint
                    &&& exec.log_query == log_query
                    &&& exec.start == start
                    &&& exec.end == end
                    &&& exec.projection == projection
                    &&& exec.limit == limit
                },
                Err(e) => projection matches Some(p) && is_projection_error(
                    e,
                    p@,
                    LOG_TABLE_COLUMNS,
                ),
            },
    {
        match check_projection(projection.as_ref(), LOG_TABLE_COLUMNS) {
            Ok(()) => Ok(LokiLogScanExec { endpoint, log_query, start, end, projection, limit }),
            Err(e) => Err(e),
        }
    }

    /// The row limit.
    pub fn fetch(&self) -> (limit: Option<usize>)
        ensures
            limit == self.limit,
    {
        self.limit
    }

    /// What the engine is told of the scan: it gives the projected columns
    /// of the log table, in one partition, as the rows come, and it ends.
    /// Nothing for a scan that was not built.
    pub fn properties(&self) -> (out: Option<PlanProperties>)
        ensures
            match out {
                Some(properties) => {
                    &&& self.wf()
                    &&& exists|table: Seq<Field>| #[trigger]
                        is_log_table_schema(table) && is_projected(
                            properties.schema@,
                            table,
                            self@.projection,
                        )
                    &&& properties.partitions == 1
                    &&& properties.emission == EmissionType::Incremental
                    &&& properties.boundedness == Boundedness::Bounded
                },
                None => !self.wf(),
            },
    {
        let table = log_table_schema();
        match project_schema(&table, self.projection.as_ref()) {
            Ok(schema) => {
                assert(is_log_table_schema(table@) && is_projected(
                    schema@,
                    table@,
                    self@.projection,
                ));
                Some(
                    PlanProperties {
                        schema,
                        partitions: 1,
                        emission: EmissionType::Incremental,
                        boundedness: Boundedness::Bounded,
                    },
                )
            },
            Err(e) => {
                proof {
                    lemma_refused_projection(e, self.projection->0@, LOG_TABLE_COLUMNS);
                }
                None
            },
        }
    }

    /// A scan that differs from this one in the row limit alone. The scan
    /// itself stays as it is.
    pub fn with_fetch(&self, limit: Option<usize>) -> (out: Option<Self>)
        ensures
            match out {
                Some(exec) => {
                    &&& self.wf()
                    &&& exec.wf()
                    &&& exec@ == (ScanConfig { limit, ..self@ })
                },
                None => !self.wf(),
            },
    {
        let projection = match &self.projection {
            Some(p) => Some(p.clone()),
            None => None,
        };
        match Self::try_new(
            self.endpoint.clone(),
            self.log_query.clone(),
            self.start,
            self.end,
            projection,
            limit,
        ) {
            Ok(exec) => Some(exec),
            Err(e) => {
                proof {
                    lemma_refused_projection(e, self.projection->0@, LOG_TABLE_COLUMNS);
                }
                None
            },
        }
    }
}

/// The read request of a scan: a `GET` of `url` with the header `Accept`
/// set to `accept` and with `query` as its query parameters, in order.
#[derive(Debug, Clone, PartialEq, Eq)]
pub struct ScanRequest {
    pub url: String,
    pub accept: String,
    pub query: Vec<(String, String)>,
}

/// How the body of a successful answer is decoded: with which top-level
/// columns (all of them where `projection` is `None`), and in batches of
/// how many rows. The decoder gives the columns that were asked for in
/// the order of the table; `order` says for each column of the projection
/// which of them it is.
#[derive(Debug, Clone, PartialEq, Eq)]
pub struct DecodePlan {
    pub projection: Option<Vec<usize>>,
    pub order: Option<Vec<usize>>,
    pub batch_size: usize,
}

/// Whether `plan` is how the body is decoded for `projection`.
pub open spec fn is_decode_plan(plan: DecodePlan, projection: Option<Seq<usize>>) -> bool {
    &&& opt_indices(plan.projection) == projection
    &&& opt_indices(plan.order) == match projection {
        Some(p) => Some(table_order(p)),
        None => None,
    }
    &&& plan.batch_size == SCAN_BATCH_SIZE
}

/// How the body of a successful answer is decoded for `projection`.
pub fn decode_plan_for(projection: &Option<Vec<usize>>) -> (plan: DecodePlan)
    ensures
        is_decode_plan(plan, opt_indices(*projection)),
{
    match projection {
        Some(p) => DecodePlan {
            projection: Some(p.clone()),
            order: Some(columns_in_table_order(p)),
            batch_size: SCAN_BATCH_SIZE,
        },
        None => DecodePlan { projection: None, order: None, batch_size: SCAN_BATCH_SIZE },
    }
}

/// The number of rows in which a body is decoded.
pub const SCAN_BATCH_SIZE: usize = 4096;

/// The path of the read endpoint.
pub open spec fn query_range_path() -> Seq<char> {
    "/loki/api/v1/query_range"@
}

/// The content type that a scan asks for.
pub open spec fn parquet_content_type() -> Seq<char> {
    "application/vnd.apache.parquet"@
}

/// One query parameter, or none.
pub open spec fn optional_param(name: Seq<char>, value: Option<Seq<char>>) -> Seq<
    (Seq<char>, Seq<char>),
> {
    match value {
        Some(v) => seq![(name, v)],
        None => Seq::empty(),
    }
}

/// The decimal numeral of an optional timestamp.
pub open spec fn opt_decimal(v: Option<i64>) -> Option<Seq<char>> {
    match v {
        Some(n) => Some(decimal_int(n as int)),
        None => None,
    }
}

/// The decimal numeral of an optional size.
pub open spec fn opt_decimal_size(v: Option<usize>) -> Option<Seq<char>> {
    match v {
        Some(n) => Some(decimal_int(n as int)),
        None => None,
    }
}

/// The query parameters of a read: `query` unless the query text is empty,
/// then `start`, `end` and `limit`, each only where it is set.
pub open spec fn query_params_of(
    log_query: Seq<char>,
    start: Option<i64>,
    end: Option<i64>,
    limit: Option<usize>,
) -> Seq<(Seq<char>, Seq<char>)> {
    optional_param(
        "query"@,
        if log_query.len() == 0 {
            None
        } else {
            Some(log_query)
        },
    ) + optional_param("start"@, opt_decimal(start)) + optional_param("end"@, opt_decimal(end))
        + optional_param("limit"@, opt_decimal_size(limit))
}

/// The query parameters of a scan.
pub open spec fn query_params(c: ScanConfig) -> Seq<(Seq<char>, Seq<char>)> {
    query_params_of(c.log_query, c.start, c.end, c.limit)
}

/// The names and values of a list of parameters, as texts.
pub open spec fn param_views(params: Seq<(String, String)>) -> Seq<(Seq<char>, Seq<char>)> {
    params.map_values(|p: (String, String)| (p.0@, p.1@))
}

/// Whether a status code reports success.
pub open spec fn is_success(status: u16) -> bool {
    200 <= status < 300
}

/// Decides [`is_success`].
pub fn status_is_success(status: u16) -> (yes: bool)
    ensures
        yes == is_success(status),
{
    200 <= status && status < 300
}

/// Where a scan stands. It starts as `Constructed`; `Exhausted` and
/// `Failed` are final.
#[derive(Clone, Copy, PartialEq, Eq, Structural, Debug)]
pub enum ScanState {
    Constructed,
    /// The request is on its way.
    Requested,
    /// The body is being decoded, batch by batch.
    Streaming,
    Exhausted,
    Failed,
}

/// What happened to a scan.
#[derive(Debug, Clone, PartialEq, Eq)]
pub enum ScanEvent {
    /// The engine asks for the rows of a partition.
    Execute { partition: usize },
    /// The store answered. `body` is the text of the answer where the
    /// status is not success and the text could be read.
    Response { status: u16, url: String, body: Option<String> },
    /// The request could not be sent, or the body could not be read.
    TransportFailed { message: String },
    /// The decoder gave the next batch of rows.
    Batch,
    /// The decoder could not read the body.
    DecodeFailed { message: String },
    /// The decoder has no more rows.
    End,
}

/// What a scan does next.
#[derive(Debug, Clone, PartialEq, Eq)]
pub enum ScanAction {
    /// Send the request and report the answer.
    Send(ScanRequest),
    /// Start decoding the body and report what the decoder gives.
    Decode(DecodePlan),
    /// Hand the batch on, in the order in which it came.
    Emit,
    /// End the stream of batches.
    Finish,
    /// End the stream of batches with this error.
    Fail(LokiError),
}

/// The state after `event` in `state`.
pub open spec fn scan_next_state(state: ScanState, event: ScanEvent) -> ScanState {
    match (state, event) {
        (ScanState::Constructed, ScanEvent::Execute { partition }) => if partition == 0 {
            ScanState::Requested
        } else {
            ScanState::Failed
        },
        (ScanState::Requested, ScanEvent::Response { status, .. }) => if is_success(status) {
            ScanState::Streaming
        } else {
            ScanState::Failed
        },
        (ScanState::Streaming, ScanEvent::Batch) => ScanState::Streaming,
        (ScanState::Streaming, ScanEvent::End) => ScanState::Exhausted,
        (ScanState::Exhausted, _) => ScanState::Exhausted,
        _ => ScanState::Failed,
    }
}

/// A scan that is exhausted stays so, and so does one that has failed.
pub proof fn lemma_scan_final_states(event: ScanEvent)
    ensures
        scan_next_state(ScanState::Exhausted, event) == ScanState::Exhausted,
        scan_next_state(ScanState::Failed, event) == ScanState::Failed,
{
}

/// Whether `action` is what a scan of configuration `c` does on `event` in
/// `state`.
pub open spec fn is_scan_action(
    c: ScanConfig,
    state: ScanState,
    event: ScanEvent,
    action: ScanAction,
) -> bool {
    match (state, event) {
        (ScanState::Constructed, ScanEvent::Execute { partition }) => if partition == 0 {
            &&& action matches ScanAction::Send(request)
            &&& is_scan_request(c, request)
        } else {
            action == ScanAction::Fail(LokiError::UnsupportedPartition { partition })
        },
        (ScanState::Requested, ScanEvent::Response { status, url, body }) => if is_success(
            status,
        ) {
            &&& action matches ScanAction::Decode(plan)
            &&& is_decode_plan(plan, c.projection)
        } else {
            action == ScanAction::Fail(LokiError::RequestFailed { status, url, body })
        },
        (ScanState::Requested, ScanEvent::TransportFailed { message }) => action
            == ScanAction::Fail(LokiError::Transport { message }),
        (ScanState::Streaming, ScanEvent::TransportFailed { message }) => action
            == ScanAction::Fail(LokiError::Transport { message }),
        (ScanState::Streaming, ScanEvent::Batch) => action is Emit,
        (ScanState::Streaming, ScanEvent::DecodeFailed { message }) => action == ScanAction::Fail(
            LokiError::MalformedBody { message },
        ),
        (ScanState::Streaming, ScanEvent::End) => action is Finish,
        _ => action == ScanAction::Fail(LokiError::OutOfOrder),
    }
}

/// Whether `request` is the read of the store at `endpoint` for the given
/// query text, bounds and limit.
pub open spec fn is_read_request(
    request: ScanRequest,
    endpoint: Seq<char>,
    log_query: Seq<char>,
    start: Option<i64>,
    end: Option<i64>,
    limit: Option<usize>,
) -> bool {
    &&& request.url@ == endpoint + query_range_path()
    &&& request.accept@ == parquet_content_type()
    &&& param_views(request.query@) == query_params_of(log_query, start, end, limit)
}

/// Whether `request` is the read request of a scan of configuration `c`.
pub open spec fn is_scan_request(c: ScanConfig, request: ScanRequest) -> bool {
    is_read_request(request, c.endpoint, c.log_query, c.start, c.end, c.limit)
}

/// The read of the store at `endpoint` for the given query text, bounds
/// and limit.
pub fn read_request(
    endpoint: &str,
    log_query: &str,
    start: Option<i64>,
    end: Option<i64>,
    limit: Option<usize>,
) -> (request: ScanRequest)
    ensures
        is_read_request(request, endpoint@, log_query@, start, end, limit),
{
    let mut url = String::from_str(endpoint);
    url.append("/loki/api/v1/query_range");
    let mut query: Vec<(String, String)> = Vec::new();
    if !log_query.is_empty() {
        query.push((String::from_str("query"), String::from_str(log_query)));
    }
    let ghost first = optional_param(
        "query"@,
        if log_query@.len() == 0 {
            None
        } else {
            Some(log_query@)
        },
    );
    assert(param_views(query@) =~= first);
    if let Some(t) = start {
        query.push((String::from_str("start"), i64_to_decimal(t)));
    }
    let ghost up_to_start = param_views(query@);
    assert(up_to_start =~= first + optional_param("start"@, opt_decimal(start)));
    if let Some(t) = end {
        query.push((String::from_str("end"), i64_to_decimal(t)));
    }
    let ghost up_to_end = param_views(query@);
    assert(up_to_end =~= up_to_start + optional_param("end"@, opt_decimal(end)));
    if let Some(n) = limit {
        query.push((String::from_str("limit"), usize_to_decimal(n)));
    }
    assert(param_views(query@) =~= up_to_end + optional_param(
        "limit"@,
        opt_decimal_size(limit),
    ));
    ScanRequest { url, accept: String::from_str("application/vnd.apache.parquet"), query }
}

impl LokiLogScanExec {
    /// The read request of the scan.
    pub fn request(&self) -> (request: ScanRequest)
        ensures
            is_scan_request(self@, request),
    {
        read_request(
            self.endpoint.as_str(),
            self.log_query.as_str(),
            self.start,
            self.end,
            self.limit,
        )
    }

    /// Starts the scan of a partition. A scan has the single partition 0:
    /// any other fails, and nothing is sent.
    pub fn execute(&self, partition: usize) -> (out: Result<ScanRequest, LokiError>)
        ensures
            match out {
                Ok(request) => partition == 0 && is_scan_request(self@, request),
                Err(e) => partition != 0 && e == LokiError::UnsupportedPartition { partition },
            },
    {
        if partition != 0 {
            return Err(LokiError::UnsupportedPartition { partition });
        }
        Ok(self.request())
    }

    /// How the body of a successful answer is decoded.
    pub fn decode_plan(&self) -> (plan: DecodePlan)
        ensures
            is_decode_plan(plan, self@.projection),
    {
        decode_plan_for(&self.projection)
    }

    /// One step of a running scan: the state that follows `event` in
    /// `state`, and what to do next. An answer other than success ends the
    /// scan with the status, the address and, where it was read, the text
    /// of the answer. An event that does not fit the state ends it too.
    pub fn step(&self, state: ScanState, event: ScanEvent) -> (out: (ScanState, ScanAction))
        ensures
            out.0 == scan_next_state(state, event),
            is_scan_action(self@, state, event, out.1),
    {
        match state {
            ScanState::Constructed => match event {
                ScanEvent::Execute { partition } => match self.execute(partition) {
                    Ok(request) => (ScanState::Requested, ScanAction::Send(request)),
                    Err(e) => (ScanState::Failed, ScanAction::Fail(e)),
                },
                _ => (ScanState::Failed, ScanAction::Fail(LokiError::OutOfOrder)),
            },
            ScanState::Requested => match event {
                ScanEvent::Response { status, url, body } => {
                    if status_is_success(status) {
                        (ScanState::Streaming, ScanAction::Decode(self.decode_plan()))
                    } else {
                        (
                            ScanState::Failed,
                            ScanAction::Fail(LokiError::RequestFailed { status, url, body }),
                        )
                    }
                },
                ScanEvent::TransportFailed { message } => (
                    ScanState::Failed,
                    ScanAction::Fail(LokiError::Transport { message }),
                ),
                _ => (ScanState::Failed, ScanAction::Fail(LokiError::OutOfOrder)),
            },
            ScanState::Streaming => match event {
                ScanEvent::Batch => (ScanState::Streaming, ScanAction::Emit),
                ScanEvent::End => (ScanState::Exhausted, ScanAction::Finish),
                ScanEvent::DecodeFailed { message } => (
                    ScanState::Failed,
                    ScanAction::Fail(LokiError::MalformedBody { message }),
                ),
                ScanEvent::TransportFailed { message } => (
                    ScanState::Failed,
                    ScanAction::Fail(LokiError::Transport { message }),
                ),
                _ => (ScanState::Failed, ScanAction::Fail(LokiError::OutOfOrder)),
            },
            ScanState::Exhausted => (ScanState::Exhausted, ScanAction::Fail(LokiError::OutOfOrder)),
            ScanState::Failed => (ScanState::Failed, ScanAction::Fail(LokiError::OutOfOrder)),
        }
    }
}

/// The name of the column of a log table at `index`.
pub open spec fn column_name(index: usize) -> Seq<char> {
    if index == 0 {
        "timestamp"@
    } else if index == 1 {
        "labels"@
    } else {
        "line"@
    }
}

/// The names of the projected columns, in the order of the projection.
pub open spec fn projected_names(projection: Seq<usize>) -> Seq<Seq<char>> {
    projection.map_values(|i: usize| column_name(i))
}

/// `label` followed by `value`, or nothing where there is no value.
pub open spec fn optional_part(label: Seq<char>, value: Option<Seq<char>>) -> Seq<char> {
    match value {
        Some(v) => label + v,
        None => Seq::empty(),
    }
}

/// The projected columns as they are displayed: `[a, b]`.
pub open spec fn opt_projected(projection: Option<Seq<usize>>) -> Option<Seq<char>> {
    match projection {
        Some(p) => Some("["@ + join_spec(projected_names(p), ", "@) + "]"@),
        None => None,
    }
}

/// How a scan is displayed: the endpoint and the query, then the bounds,
/// the projected columns and the limit, each only where it is set.
pub open spec fn scan_display(c: ScanConfig) -> Seq<char> {
    "LokiLogScanExec: endpoint="@ + c.endpoint + ", query="@ + c.log_query + optional_part(
        ", start="@,
        opt_decimal(c.start),
    ) + optional_part(", end="@, opt_decimal(c.end)) + optional_part(
        ", projection="@,
        opt_projected(c.projection),
    ) + optional_part(", limit="@, opt_decimal_size(c.limit))
}

/// Appends `label` and `value` to `out` where there is a value.
fn append_optional(out: &mut String, label: &str, value: Option<String>)
    ensures
        final(out)@ == old(out)@ + optional_part(label@, opt_text(value)),
{
    match value {
        Some(v) => {
            out.append(label);
            out.append(v.as_str());
            assert(final(out)@ =~= old(out)@ + (label@ + v@));
        },
        None => {
            assert(old(out)@ + Seq::<char>::empty() =~= old(out)@);
        },
    }
}

/// The names of the projected columns of a log table.
fn projected_column_names(projection: &Vec<usize>) -> (names: Vec<String>)
    ensures
        views(names@) == projected_names(projection@),
{
    let mut names: Vec<String> = Vec::new();
    let mut i: usize = 0;
    while i < projection.len()
        invariant
            i <= projection.len(),
            views(names@) =~= projected_names(projection@.take(i as int)),
        decreases projection.len() - i,
    {
        let name = if projection[i] == 0 {
            "timestamp"
        } else if projection[i] == 1 {
            "labels"
        } else {
            "line"
        };
        names.push(String::from_str(name));
        proof {
            let before = projection@.take(i as int);
            let after = projection@.take(i + 1);
            assert(after =~= before.push(projection@[i as int]));
            assert(projected_names(after) =~= projected_names(before).push(
                column_name(projection@[i as int]),
            ));
        }
        i = i + 1;
    }
    assert(projection@.take(projection.len() as int) =~= projection@);
    names
}

impl LokiLogScanExec {
    /// The line that describes the scan in a displayed plan.
    pub fn display(&self) -> (out: String)
        ensures
            out@ == scan_display(self@),
    {
        let mut out = String::from_str("LokiLogScanExec: endpoint=");
        out.append(self.endpoint.as_str());
        out.append(", query=");
        out.append(self.log_query.as_str());
        let start = match self.start {
            Some(t) => Some(i64_to_decimal(t)),
            None => None,
        };
        append_optional(&mut out, ", start=", start);
        let end = match self.end {
            Some(t) => Some(i64_to_decimal(t)),
            None => None,
        };
        append_optional(&mut out, ", end=", end);
        let projected = match &self.projection {
            Some(p) => {
                let names = projected_column_names(p);
                let mut text = String::from_str("[");
                text.append(join(&names, ", ").as_str());
                text.append("]");
                Some(text)
            },
            None => None,
        };
        append_optional(&mut out, ", projection=", projected);
        let limit = match self.limit {
            Some(n) => Some(usize_to_decimal(n)),
            None => None,
        };
        append_optional(&mut out, ", limit=", limit);
        out
    }
}

} // verus!
