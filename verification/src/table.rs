use vstd::prelude::*;
use vstd::string::*;

use crate::error::LokiError;
use crate::expr::{
    column_label_filter, expr_to_column_label_filter, expr_to_label_filter, expr_to_line_filter,
    label_filter, line_filter, opt_text, parse_timestamp_bound, timestamp_bound, Expr,
    TimestampBound,
};
use crate::insert::{InputPlan, LokiLogInsertExec};
use crate::scan::{
    is_projection_error, is_success, projection_fits, status_is_success,
    LokiLogScanExec, ScanConfig,
};
use crate::schema::{is_log_table_schema, log_table_schema, Field, LOG_TABLE_COLUMNS};
use crate::text::{join, join_spec, views};

verus! {

/// The label filter of a predicate: on a lookup in the label map where
/// `columns` is `None`, on one of the label columns `columns` otherwise.
pub open spec fn label_filter_for(e: Expr, columns: Option<Seq<String>>) -> Option<Seq<char>> {
    match columns {
        None => label_filter(e),
        Some(labels) => column_label_filter(e, labels),
    }
}

/// Whether a predicate can be handed to the store: whether it stands for a
/// label filter, a line filter or a bound of the time range.
pub open spec fn is_supported(e: Expr, columns: Option<Seq<String>>) -> bool {
    label_filter_for(e, columns) is Some || line_filter(e) is Some || timestamp_bound(e) is Some
}

/// What the predicates of a query come to: label filters and line filters
/// in the order of the predicates, and the bounds of the time range.
pub struct Fragments {
    pub labels: Seq<Seq<char>>,
    pub lines: Seq<Seq<char>>,
    pub start: Option<i64>,
    pub end: Option<i64>,
}

/// The fragments after one more predicate. A predicate goes into exactly
/// one kind: a label filter where it stands for one, else a line filter,
/// else a bound; a later bound replaces an earlier one for the same end.
pub open spec fn absorb(f: Fragments, e: Expr, columns: Option<Seq<String>>) -> Fragments {
    if label_filter_for(e, columns) is Some {
        Fragments { labels: f.labels.push(label_filter_for(e, columns)->0), ..f }
    } else if line_filter(e) is Some {
        Fragments { lines: f.lines.push(line_filter(e)->0), ..f }
    } else {
        match timestamp_bound(e) {
            Some(TimestampBound::Start(v)) => Fragments { start: v, ..f },
            Some(TimestampBound::End(v)) => Fragments { end: v, ..f },
            None => f,
        }
    }
}

/// A predicate that can be handed to the store goes into exactly one kind
/// of fragment: it adds one label filter, or one line filter, or sets or
/// clears one bound, and leaves the rest as it is.
pub proof fn lemma_absorbed_once(f: Fragments, e: Expr, columns: Option<Seq<String>>)
    requires
        is_supported(e, columns),
    ensures
        ({
            let after = absorb(f, e, columns);
            ||| after == (Fragments { labels: f.labels.push(after.labels.last()), ..f })
            ||| after == (Fragments { lines: f.lines.push(after.lines.last()), ..f })
            ||| after == (Fragments { start: after.start, ..f })
            ||| after == (Fragments { end: after.end, ..f })
        }),
        !(absorb(f, e, columns).labels.len() == f.labels.len() + 1 && absorb(
            f,
            e,
            columns,
        ).lines.len() == f.lines.len() + 1),
{
}

/// The fragments of a list of predicates.
pub open spec fn absorb_all(filters: Seq<Expr>, columns: Option<Seq<String>>) -> Fragments
    decreases filters.len(),
{
    if filters.len() == 0 {
        Fragments { labels: Seq::empty(), lines: Seq::empty(), start: None, end: None }
    } else {
        absorb(absorb_all(filters.drop_last(), columns), filters.last(), columns)
    }
}

/// Whether `at` is the position of the first predicate that cannot be
/// handed to the store.
pub open spec fn is_first_unsupported(
    filters: Seq<Expr>,
    columns: Option<Seq<String>>,
    at: int,
) -> bool {
    &&& 0 <= at < filters.len()
    &&& !is_supported(filters[at], columns)
    &&& forall|i: int| 0 <= i < at ==> is_supported(#[trigger] filters[i], columns)
}

/// Whether every predicate can be handed to the store.
pub open spec fn all_supported(filters: Seq<Expr>, columns: Option<Seq<String>>) -> bool {
    forall|i: int| 0 <= i < filters.len() ==> is_supported(#[trigger] filters[i], columns)
}

/// The fragments of a query, as they were collected.
#[derive(Debug, Clone, PartialEq, Eq)]
pub struct QueryParts {
    pub labels: Vec<String>,
    pub lines: Vec<String>,
    pub start: Option<i64>,
    pub end: Option<i64>,
}

impl View for QueryParts {
    type V = Fragments;

    open spec fn view(&self) -> Fragments {
        Fragments {
            labels: views(self.labels@),
            lines: views(self.lines@),
            start: self.start,
            end: self.end,
        }
    }
}

/// The view of the label columns of a table.
pub open spec fn opt_columns(columns: Option<&Vec<String>>) -> Option<Seq<String>> {
    match columns {
        Some(c) => Some(c@),
        None => None,
    }
}

/// Translates one predicate into a label filter, on the label map or on
/// the label columns.
fn translate_label(expr: &Expr, columns: Option<&Vec<String>>) -> (out: Option<String>)
    ensures
        opt_text(out) == label_filter_for(*expr, opt_columns(columns)),
{
    match columns {
        None => expr_to_label_filter(expr),
        Some(labels) => expr_to_column_label_filter(expr, labels),
    }
}

/// Translates the predicates of a query into fragments. Fails at the first
/// predicate that stands for none.
pub fn translate_filters(filters: &[Expr], columns: Option<&Vec<String>>) -> (out: Result<
    QueryParts,
    LokiError,
>)
    ensures
        match out {
            Ok(parts) => {
                &&& all_supported(filters@, opt_columns(columns))
                &&& parts@ == absorb_all(filters@, opt_columns(columns))
            },
            Err(e) => exists|at: int| #[trigger]
                is_first_unsupported(filters@, opt_columns(columns), at) && e
                    == (LokiError::UnsupportedFilter { position: at as usize }),
        },
{
    let mut parts = QueryParts { labels: Vec::new(), lines: Vec::new(), start: None, end: None };
    let ghost cols = opt_columns(columns);
    let mut i: usize = 0;
    assert(parts@ =~= absorb_all(filters@.take(0), cols)) by {
        assert(views(parts.labels@) =~= Seq::<Seq<char>>::empty());
        assert(views(parts.lines@) =~= Seq::<Seq<char>>::empty());
    }
    while i < filters.len()
        invariant
            i <= filters.len(),
            cols == opt_columns(columns),
            parts@ == absorb_all(filters@.take(i as int), cols),
            forall|j: int| 0 <= j < i ==> is_supported(#[trigger] filters@[j], cols),
        decreases filters.len() - i,
    {
        let filter = &filters[i];
        let ghost before = parts@;
        proof {
            assert(filters@.take(i + 1).drop_last() =~= filters@.take(i as int));
            assert(filters@.take(i + 1).last() == filters@[i as int]);
        }
        if let Some(label) = translate_label(filter, columns) {
            parts.labels.push(label);
            assert(views(parts.labels@) =~= before.labels.push(label@));
        } else if let Some(line) = expr_to_line_filter(filter) {
            parts.lines.push(line);
            assert(views(parts.lines@) =~= before.lines.push(line@));
        } else if let Some(bound) = parse_timestamp_bound(filter) {
            match bound {
                TimestampBound::Start(v) => {
                    parts.start = v;
                },
                TimestampBound::End(v) => {
                    parts.end = v;
                },
            }
        } else {
            assert(is_first_unsupported(filters@, cols, i as int));
            return Err(LokiError::UnsupportedFilter { position: i });
        }
        assert(parts@ == absorb(before, filters@[i as int], cols));
        i = i + 1;
    }
    assert(filters@.take(filters.len() as int) =~= filters@);
    Ok(parts)
}

/// Whether the store can apply a predicate exactly, or not at all.
#[derive(Clone, Copy, PartialEq, Eq, Structural, Debug)]
pub enum FilterPushDown {
    /// The store applies the predicate; nothing is left to filter here.
    Exact,
    /// The predicate stays with the engine.
    Unsupported,
}

/// The verdict on one predicate.
pub open spec fn push_down(e: Expr, columns: Option<Seq<String>>) -> FilterPushDown {
    if is_supported(e, columns) {
        FilterPushDown::Exact
    } else {
        FilterPushDown::Unsupported
    }
}

/// What is reported as applied exactly is what a scan can be built from:
/// every filter of a query is reported so exactly where none of them keeps
/// a scan from being built.
pub proof fn lemma_exact_filters_are_scanned(filters: Seq<Expr>, columns: Option<Seq<String>>)
    ensures
        all_supported(filters, columns) <==> forall|i: int|
            0 <= i < filters.len() ==> push_down(#[trigger] filters[i], columns)
                == FilterPushDown::Exact,
        all_supported(filters, columns) <==> !exists|at: int|
            is_first_unsupported(filters, columns, at),
{
    if all_supported(filters, columns) {
        assert forall|i: int| 0 <= i < filters.len() implies push_down(
            #[trigger] filters[i],
            columns,
        ) == FilterPushDown::Exact by {
            assert(is_supported(filters[i], columns));
        }
    } else {
        let at = lemma_first_unsupported(filters, columns);
        assert(is_first_unsupported(filters, columns, at));
    }
}

/// Where not every predicate can be handed to the store, one is the first
/// that cannot.
proof fn lemma_first_unsupported(filters: Seq<Expr>, columns: Option<Seq<String>>) -> (at: int)
    requires
        !all_supported(filters, columns),
    ensures
        is_first_unsupported(filters, columns, at),
    decreases filters.len(),
{
    let some = choose|i: int| 0 <= i < filters.len() && !is_supported(#[trigger] filters[i], columns);
    let before = filters.take(some);
    if all_supported(before, columns) {
        assert forall|i: int| 0 <= i < some implies is_supported(
            #[trigger] filters[i],
            columns,
        ) by {
            assert(before[i] == filters[i]);
        }
        some
    } else {
        let at = lemma_first_unsupported(before, columns);
        assert(before[at] == filters[at]);
        assert forall|i: int| 0 <= i < at implies is_supported(#[trigger] filters[i], columns) by {
            assert(before[i] == filters[i]);
        }
        at
    }
}

/// Says of each predicate whether the store can apply it.
pub fn filters_pushdown(filters: &[&Expr], columns: Option<&Vec<String>>) -> (out: Vec<
    FilterPushDown,
>)
    ensures
        out@.len() == filters@.len(),
        forall|i: int|
            0 <= i < filters@.len() ==> #[trigger] out@[i] == push_down(
                *filters@[i],
                opt_columns(columns),
            ),
{
    let mut out: Vec<FilterPushDown> = Vec::new();
    let mut i: usize = 0;
    while i < filters.len()
        invariant
            i <= filters.len(),
            out@.len() == i,
            forall|j: int|
                0 <= j < i ==> #[trigger] out@[j] == push_down(
                    *filters@[j],
                    opt_columns(columns),
                ),
        decreases filters.len() - i,
    {
        let filter = filters[i];
        let supported = translate_label(filter, columns).is_some() || expr_to_line_filter(
            filter,
        ).is_some() || parse_timestamp_bound(filter).is_some();
        if supported {
            out.push(FilterPushDown::Exact);
        } else {
            out.push(FilterPushDown::Unsupported);
        }
        i = i + 1;
    }
    out
}

/// The label filter that stands in for a missing one: the default label
/// with any value that is not empty.
pub open spec fn default_label_filter(label: Seq<char>) -> Seq<char> {
    label + "=~\".+\""@
}

/// The label filters of a query: those of its predicates or, where there
/// are none, the one of the default label; nothing where there is neither.
pub open spec fn effective_labels(labels: Seq<Seq<char>>, default_label: Option<Seq<char>>) -> Option<
    Seq<Seq<char>>,
> {
    if labels.len() > 0 {
        Some(labels)
    } else {
        match default_label {
            Some(d) => Some(seq![default_label_filter(d)]),
            None => None,
        }
    }
}

/// The text of a query: the label filters in braces, with `, ` between
/// them, then a space and the line filters, with a space between them.
pub open spec fn log_query_text(labels: Seq<Seq<char>>, lines: Seq<Seq<char>>) -> Seq<char> {
    "{"@ + join_spec(labels, ", "@) + "} "@ + join_spec(lines, " "@)
}

/// The path of the endpoint that the connection check asks.
pub open spec fn build_info_path() -> Seq<char> {
    "/loki/api/v1/status/buildinfo"@
}

/// A log store as a table with the columns timestamp, labels and line.
#[derive(Debug, Clone, PartialEq, Eq)]
pub struct LokiLogTable {
    pub endpoint: String,
    pub default_label: Option<String>,
}

/// Which rows an insert replaces.
#[derive(Clone, Copy, PartialEq, Eq, Structural, Debug)]
pub enum InsertOp {
    Append,
    Overwrite,
    Replace,
}

impl LokiLogTable {
    /// A table on the store at `endpoint`, without a default label.
    pub fn try_new(endpoint: &str) -> (out: Result<Self, LokiError>)
        ensures
            out matches Ok(table) && table.endpoint@ == endpoint@ && table.default_label is None,
    {
        Ok(LokiLogTable { endpoint: String::from_str(endpoint), default_label: None })
    }

    /// The table with `default_label` as the label that a query without a
    /// label filter selects by.
    pub fn with_default_label(self, default_label: Option<String>) -> (out: Self)
        ensures
            out.endpoint == self.endpoint,
            out.default_label == default_label,
    {
        LokiLogTable { endpoint: self.endpoint, default_label }
    }

    /// The schema of the table.
    pub fn schema(&self) -> (s: Vec<Field>)
        ensures
            is_log_table_schema(s@),
    {
        log_table_schema()
    }

    /// The address that the connection check asks.
    pub fn connection_check_url(&self) -> (url: String)
        ensures
            url@ == self.endpoint@ + build_info_path(),
    {
        let mut url = self.endpoint.clone();
        url.append("/loki/api/v1/status/buildinfo");
        url
    }

    /// Judges the answer to the connection check by its status.
    pub fn check_connection(&self, status: u16) -> (out: Result<(), LokiError>)
        ensures
            match out {
                Ok(()) => is_success(status),
                Err(e) => !is_success(status) && e == LokiError::ConnectionFailed { status },
            },
    {
        if status_is_success(status) {
            Ok(())
        } else {
            Err(LokiError::ConnectionFailed { status })
        }
    }

    /// Builds the scan for a query: translates every filter into a label
    /// filter, a line filter or a bound of the time range, and puts the
    /// query text together. Fails at the first filter that cannot be
    /// translated; where no filter selects by label and no default label is
    /// configured; and where the projection does not fit the table.
    pub fn scan(
        &self,
        projection: Option<&Vec<usize>>,
        filters: &[Expr],
        limit: Option<usize>,
    ) -> (out: Result<LokiLogScanExec, LokiError>)
        ensures
            match out {
                Ok(exec) => {
                    let f = absorb_all(filters@, None);
                    &&& all_supported(filters@, None)
                    &&& effective_labels(f.labels, opt_text(self.default_label)) matches Some(
                        labels,
                    )
                    &&& projection_fits(opt_columns_of(projection), LOG_TABLE_COLUMNS as int)
                    &&& exec.wf()
                    &&& exec@ == (ScanConfig {
                        endpoint: self.endpoint@,
                        log_query: log_query_text(labels, f.lines),
                        start: f.start,
                        end: f.end,
                        projection: opt_columns_of(projection),
                        limit,
                    })
                },
                Err(e) => {
                    let f = absorb_all(filters@, None);
                    if !all_supported(filters@, None) {
                        exists|at: int| #[trigger]
                            is_first_unsupported(filters@, None, at) && e
                                == (LokiError::UnsupportedFilter { position: at as usize })
                    } else if effective_labels(f.labels, opt_text(self.default_label)) is None {
                        e == LokiError::MissingLabelFilter
                    } else {
                        projection matches Some(p) && is_projection_error(
                            e,
                            p@,
                            LOG_TABLE_COLUMNS,
                        )
                    }
                },
            },
    {
        let mut parts = match translate_filters(filters, None) {
            Ok(parts) => parts,
            Err(e) => {
                return Err(e);
            },
        };
        let ghost f = parts@;
        if parts.labels.len() == 0 {
            match &self.default_label {
                Some(label) => {
                    let mut fallback = label.clone();
                    fallback.append("=~\".+\"");
                    parts.labels.push(fallback);
                    assert(views(parts.labels@) =~= seq![default_label_filter(label@)]);
                },
                None => {
                    return Err(LokiError::MissingLabelFilter);
                },
            }
        }
        assert(Some(views(parts.labels@)) == effective_labels(
            f.labels,
            opt_text(self.default_label),
        ));
        let mut log_query = String::from_str("{");
        log_query.append(join(&parts.labels, ", ").as_str());
        log_query.append("} ");
        log_query.append(join(&parts.lines, " ").as_str());
        let projection = match projection {
            Some(p) => Some(p.clone()),
            None => None,
        };
        LokiLogScanExec::try_new(
            self.endpoint.clone(),
            log_query,
            parts.start,
            parts.end,
            projection,
            limit,
        )
    }

    /// Builds the insert of the rows of `input`. Rows can only be
    /// appended, and the input has to have the schema of the table.
    pub fn insert_into(&self, input: InputPlan, insert_op: InsertOp) -> (out: Result<
        LokiLogInsertExec,
        LokiError,
    >)
        ensures
            match out {
                Ok(exec) => {
                    &&& insert_op == InsertOp::Append
                    &&& is_log_table_schema(input.schema@)
                    &&& exec.input == input
                    &&& exec.endpoint@ == self.endpoint@
                },
                Err(e) => if insert_op != InsertOp::Append {
                    e == LokiError::UnsupportedInsertOp
                } else {
                    !is_log_table_schema(input.schema@) && e == LokiError::SchemaMismatch
                },
            },
    {
        match insert_op {
            InsertOp::Append => {},
            InsertOp::Overwrite | InsertOp::Replace => {
                return Err(LokiError::UnsupportedInsertOp);
            },
        }
        LokiLogInsertExec::try_new(input, self.endpoint.clone())
    }

    /// Says of each filter whether the store applies it exactly or not at
    /// all: exactly where [`LokiLogTable::scan`] can translate it.
    pub fn supports_filters_pushdown(&self, filters: &[&Expr]) -> (out: Result<
        Vec<FilterPushDown>,
        LokiError,
    >)
        ensures
            out matches Ok(verdicts) && verdicts@.len() == filters@.len() && forall|i: int|
                0 <= i < filters@.len() ==> #[trigger] verdicts@[i] == push_down(
                    *filters@[i],
                    None,
                ),
    {
        Ok(filters_pushdown(filters, None))
    }
}

/// The view of an optional projection that is borrowed.
pub open spec fn opt_columns_of(projection: Option<&Vec<usize>>) -> Option<Seq<usize>> {
    match projection {
        Some(p) => Some(p@),
        None => None,
    }
}

} // verus!
