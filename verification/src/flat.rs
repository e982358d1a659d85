use vstd::prelude::*;
use vstd::string::*;

use crate::error::LokiError;
use crate::expr::Expr;
use crate::scan::{
    check_projection, decode_plan_for, is_projection_error, is_read_request, opt_decimal,
    opt_decimal_size, is_decode_plan, opt_indices, optional_part, projection_fits,
    read_request, DecodePlan, ScanRequest,
};
use crate::schema::{
    is_line_field, is_text_field, is_timestamp_field, line_field, timestamp_field, DataType,
    Field,
};
use crate::table::{
    absorb_all, all_supported, filters_pushdown, is_first_unsupported, opt_columns_of,
    push_down, translate_filters, FilterPushDown,
};
use crate::text::{i64_to_decimal, join, join_spec, usize_to_decimal, views};

verus! {

/// The schema of a log table with one column for each label: the
/// timestamp, then every label as a nullable text, then the line.
pub open spec fn is_table_schema(s: Seq<Field>, labels: Seq<String>) -> bool {
    &&& s.len() == labels.len() + 2
    &&& is_timestamp_field(s[0])
    &&& forall|i: int|
        0 <= i < labels.len() ==> is_text_field(#[trigger] s[i + 1], labels[i]@, true)
    &&& is_line_field(s[labels.len() as int + 1])
}

/// The schema of a log table with the label columns `labels`.
pub fn make_table_schema(labels: &Vec<String>) -> (s: Vec<Field>)
    ensures
        is_table_schema(s@, labels@),
{
    let mut s: Vec<Field> = Vec::new();
    s.push(timestamp_field());
    let mut i: usize = 0;
    while i < labels.len()
        invariant
            i <= labels.len(),
            s@.len() == i + 1,
            is_timestamp_field(s@[0]),
            forall|j: int| 0 <= j < i ==> is_text_field(#[trigger] s@[j + 1], labels@[j]@, true),
        decreases labels.len() - i,
    {
        s.push(Field::new(labels[i].as_str(), DataType::Utf8, true));
        i = i + 1;
    }
    s.push(line_field());
    s
}

/// Whether a label column is called like the timestamp or the line
/// column.
pub open spec fn has_reserved_label(labels: Seq<String>) -> bool {
    exists|i: int|
        0 <= i < labels.len() && ((#[trigger] labels[i])@ == "timestamp"@ || labels[i]@
            == "line"@)
}

/// The configuration of a scan of a table with label columns, as values.
pub struct FlatScanConfig {
    pub endpoint: Seq<char>,
    pub labels: Seq<Seq<char>>,
    pub log_query: Seq<char>,
    pub start: Option<i64>,
    pub end: Option<i64>,
    pub projection: Option<Seq<usize>>,
    pub limit: Option<usize>,
}

/// A bounded read of the log store for a table with label columns.
#[derive(Debug, Clone, PartialEq, Eq)]
pub struct LokiLogScanExec {
    pub endpoint: String,
    pub labels: Vec<String>,
    pub log_query: String,
    pub start: Option<i64>,
    pub end: Option<i64>,
    pub projection: Option<Vec<usize>>,
    pub limit: Option<usize>,
}

impl View for LokiLogScanExec {
    type V = FlatScanConfig;

    open spec fn view(&self) -> FlatScanConfig {
        FlatScanConfig {
            endpoint: self.endpoint@,
            labels: views(self.labels@),
            log_query: self.log_query@,
            start: self.start,
            end: self.end,
            projection: opt_indices(self.projection),
            limit: self.limit,
        }
    }
}

/// A copy of a list of texts.
fn copy_texts(texts: &Vec<String>) -> (out: Vec<String>)
    ensures
        views(out@) == views(texts@),
        out@.len() == texts@.len(),
{
    let mut out: Vec<String> = Vec::new();
    let mut i: usize = 0;
    while i < texts.len()
        invariant
            i <= texts.len(),
            out@.len() == i,
            forall|j: int| 0 <= j < i ==> out@[j]@ == texts@[j]@,
        decreases texts.len() - i,
    {
        out.push(texts[i].clone());
        i = i + 1;
    }
    assert(views(out@) =~= views(texts@));
    out
}

/// The name of the column at `index` of a table with the label columns
/// `labels`.
pub open spec fn flat_column_name(labels: Seq<Seq<char>>, index: usize) -> Seq<char> {
    if index == 0 {
        "timestamp"@
    } else if index <= labels.len() {
        labels[index - 1]
    } else {
        "line"@
    }
}

/// How a scan of a table with label columns is displayed.
pub open spec fn flat_scan_display(c: FlatScanConfig) -> Seq<char> {
    "LokiLogScanExec: endpoint="@ + c.endpoint + ", query="@ + c.log_query + optional_part(
        ", start="@,
        opt_decimal(c.start),
    ) + optional_part(", end="@, opt_decimal(c.end)) + optional_part(
        ", projection="@,
        match c.projection {
            Some(p) => Some(
                "["@ + join_spec(p.map_values(|i: usize| flat_column_name(c.labels, i)), ", "@)
                    + "]"@,
            ),
            None => None,
        },
    ) + optional_part(", limit="@, opt_decimal_size(c.limit))
}

/// Appends `label` and `value` to `out` where there is a value.
fn append_part(out: &mut String, label: &str, value: Option<String>)
    ensures
        final(out)@ == old(out)@ + optional_part(label@, crate::expr::opt_text(value)),
{
    match value {
        Some(v) => {
            out.append(label);
            out.append(v.as_str());
            assert(final(out)@ =~= old(out)@ + (label@ + v@));
        },
        None => {
            assert(old(out)@ + Seq::<char>::empty() =~= old(out)@);
        },
    }
}

impl LokiLogScanExec {
    /// How many columns the table of the scan has.
    pub open spec fn fields(&self) -> int {
        (self.labels@.len() + 2) as int
    }

    /// What holds of every scan that was built: the table has each column
    /// that the projection asks for.
    pub open spec fn wf(&self) -> bool {
        projection_fits(self@.projection, self.fields())
    }

    /// Builds a scan of a table with the label columns `labels`. Fails
    /// where the projection asks for a column that the table does not
    /// have, and names the first such index.
    pub fn try_new(
        endpoint: String,
        labels: Vec<String>,
        log_query: String,
        start: Option<i64>,
        end: Option<i64>,
        projection: Option<Vec<usize>>,
        limit: Option<usize>,
    ) -> (out: Result<Self, LokiError>)
        requires
            labels@.len() + 2 <= usize::MAX,
        ensures
            match out {
                Ok(exec) => {
                    &&& exec.wf()
                    &&& exec.endpoint == endpoint
                    &&& exec.labels == labels
                    &&& exec.log_query == log_query
                    &&& exec.start == start
                    &&& exec.end == end
                    &&& exec.projection == projection
                    &&& exec.limit == limit
                },
                Err(e) => {
                    &&& projection matches Some(p)
                    &&& is_projection_error(e, p@, (labels@.len() + 2) as usize)
                },
            },
    {
        let fields = labels.len() + 2;
        match check_projection(projection.as_ref(), fields) {
            Ok(()) => Ok(
                LokiLogScanExec { endpoint, labels, log_query, start, end, projection, limit },
            ),
            Err(e) => Err(e),
        }
    }

    /// The row limit.
    pub fn fetch(&self) -> (limit: Option<usize>)
        ensures
            limit == self.limit,
    {
        self.limit
    }

    /// A scan that differs from this one in the row limit alone.
    pub fn with_fetch(&self, limit: Option<usize>) -> (out: Option<Self>)
        requires
            self.labels@.len() + 2 <= usize::MAX,
        ensures
            match out {
                Some(exec) => self.wf() && exec.wf() && exec@ == (FlatScanConfig {
                    limit,
                    ..self@
                }),
                None => !self.wf(),
            },
    {
        let projection = match &self.projection {
            Some(p) => Some(p.clone()),
            None => None,
        };
        match Self::try_new(
            self.endpoint.clone(),
            copy_texts(&self.labels),
            self.log_query.clone(),
            self.start,
            self.end,
            projection,
            limit,
        ) {
            Ok(exec) => Some(exec),
            Err(e) => {
                proof {
                    crate::scan::lemma_refused_projection(
                        e,
                        self.projection->0@,
                        (self.labels@.len() + 2) as usize,
                    );
                }
                None
            },
        }
    }

    /// Starts the scan of a partition: gives the read request. A scan has
    /// the single partition 0: any other fails, and nothing is sent.
    pub fn execute(&self, partition: usize) -> (out: Result<ScanRequest, LokiError>)
        ensures
            match out {
                Ok(request) => partition == 0 && is_read_request(
                    request,
                    self.endpoint@,
                    self.log_query@,
                    self.start,
                    self.end,
                    self.limit,
                ),
                Err(e) => partition != 0 && e == LokiError::UnsupportedPartition { partition },
            },
    {
        if partition != 0 {
            return Err(LokiError::UnsupportedPartition { partition });
        }
        Ok(
            read_request(
                self.endpoint.as_str(),
                self.log_query.as_str(),
                self.start,
                self.end,
                self.limit,
            ),
        )
    }

    /// How the body of a successful answer is decoded.
    pub fn decode_plan(&self) -> (plan: DecodePlan)
        ensures
            is_decode_plan(plan, self@.projection),
    {
        decode_plan_for(&self.projection)
    }

    /// The line that describes the scan in a displayed plan.
    pub fn display(&self) -> (out: String)
        ensures
            out@ == flat_scan_display(self@),
    {
        let mut out = String::from_str("LokiLogScanExec: endpoint=");
        out.append(self.endpoint.as_str());
        out.append(", query=");
        out.append(self.log_query.as_str());
        let start = match self.start {
            Some(t) => Some(i64_to_decimal(t)),
            None => None,
        };
        append_part(&mut out, ", start=", start);
        let end = match self.end {
            Some(t) => Some(i64_to_decimal(t)),
            None => None,
        };
        append_part(&mut out, ", end=", end);
        let projected = match &self.projection {
            Some(p) => {
                let mut names: Vec<String> = Vec::new();
                let mut i: usize = 0;
                let ghost labels = views(self.labels@);
                while i < p.len()
                    invariant
                        i <= p.len(),
                        labels == views(self.labels@),
                        views(names@) =~= p@.take(i as int).map_values(
                            |k: usize| flat_column_name(labels, k),
                        ),
                    decreases p.len() - i,
                {
                    let index = p[i];
                    let name = if index == 0 {
                        String::from_str("timestamp")
                    } else if index <= self.labels.len() {
                        self.labels[index - 1].clone()
                    } else {
                        String::from_str("line")
                    };
                    names.push(name);
                    proof {
                        let before = p@.take(i as int);
                        let after = p@.take(i + 1);
                        assert(after =~= before.push(p@[i as int]));
                        assert(after.map_values(|k: usize| flat_column_name(labels, k))
                            =~= before.map_values(|k: usize| flat_column_name(labels, k)).push(
                            flat_column_name(labels, p@[i as int]),
                        ));
                    }
                    i = i + 1;
                }
                assert(p@.take(p.len() as int) =~= p@);
                let mut text = String::from_str("[");
                text.append(join(&names, ", ").as_str());
                text.append("]");
                Some(text)
            },
            None => None,
        };
        append_part(&mut out, ", projection=", projected);
        let limit = match self.limit {
            Some(n) => Some(usize_to_decimal(n)),
            None => None,
        };
        append_part(&mut out, ", limit=", limit);
        out
    }
}

/// The text of a query on a table with label columns: the label filters
/// with `, ` between them, then a space and the line filters, with a
/// space between them.
pub open spec fn flat_query_text(labels: Seq<Seq<char>>, lines: Seq<Seq<char>>) -> Seq<char> {
    join_spec(labels, ", "@) + " "@ + join_spec(lines, " "@)
}

/// A log store as a table with the timestamp, one column for each label,
/// and the line.
#[derive(Debug, PartialEq, Eq)]
pub struct LokiLogTable {
    pub endpoint: String,
    pub labels: Vec<String>,
    pub schema: Vec<Field>,
}

impl LokiLogTable {
    /// What holds of every table that was built: its schema is that of
    /// its label columns, none of which is called like the timestamp or
    /// the line column.
    pub open spec fn wf(&self) -> bool {
        &&& is_table_schema(self.schema@, self.labels@)
        &&& !has_reserved_label(self.labels@)
        &&& self.labels@.len() + 2 <= usize::MAX
    }

    /// A table on the store at `endpoint` with the label columns
    /// `labels`. Fails where a label is called `timestamp` or `line`.
    pub fn try_new(endpoint: String, labels: Vec<String>) -> (out: Result<Self, LokiError>)
        requires
            labels@.len() + 2 <= usize::MAX,
        ensures
            match out {
                Ok(table) => {
                    &&& !has_reserved_label(labels@)
                    &&& table.wf()
                    &&& table.endpoint == endpoint
                    &&& table.labels == labels
                },
                Err(e) => has_reserved_label(labels@) && e == LokiError::ReservedLabel,
            },
    {
        let timestamp = String::from_str("timestamp");
        let line = String::from_str("line");
        let mut i: usize = 0;
        while i < labels.len()
            invariant
                i <= labels.len(),
                timestamp@ == "timestamp"@,
                line@ == "line"@,
                forall|j: int|
                    0 <= j < i ==> (#[trigger] labels@[j])@ != "timestamp"@ && labels@[j]@
                        != "line"@,
            decreases labels.len() - i,
        {
            if labels[i] == timestamp || labels[i] == line {
                return Err(LokiError::ReservedLabel);
            }
            i = i + 1;
        }
        let schema = make_table_schema(&labels);
        Ok(LokiLogTable { endpoint, labels, schema })
    }

    /// Builds the scan for a query, as the table with a label map does,
    /// but for predicates on the label columns, and with the label filters
    /// written without braces. Fails at the first filter that cannot be
    /// translated, where no filter selects by label, and where the
    /// projection does not fit the table.
    pub fn scan(
        &self,
        projection: Option<&Vec<usize>>,
        filters: &[Expr],
        limit: Option<usize>,
    ) -> (out: Result<LokiLogScanExec, LokiError>)
        requires
            self.wf(),
        ensures
            match out {
                Ok(exec) => {
                    let f = absorb_all(filters@, Some(self.labels@));
                    &&& all_supported(filters@, Some(self.labels@))
                    &&& f.labels.len() > 0
                    &&& exec.wf()
                    &&& exec@ == (FlatScanConfig {
                        endpoint: self.endpoint@,
                        labels: views(self.labels@),
                        log_query: flat_query_text(f.labels, f.lines),
                        start: f.start,
                        end: f.end,
                        projection: opt_columns_of(projection),
                        limit,
                    })
                },
                Err(e) => {
                    let f = absorb_all(filters@, Some(self.labels@));
                    if !all_supported(filters@, Some(self.labels@)) {
                        exists|at: int| #[trigger]
                            is_first_unsupported(filters@, Some(self.labels@), at) && e
                                == (LokiError::UnsupportedFilter { position: at as usize })
                    } else if f.labels.len() == 0 {
                        e == LokiError::MissingLabelFilter
                    } else {
                        &&& projection matches Some(p)
                        &&& is_projection_error(e, p@, (self.labels@.len() + 2) as usize)
                    }
                },
            },
    {
        let parts = match translate_filters(filters, Some(&self.labels)) {
            Ok(parts) => parts,
            Err(e) => {
                return Err(e);
            },
        };
        if parts.labels.len() == 0 {
            return Err(LokiError::MissingLabelFilter);
        }
        let mut log_query = join(&parts.labels, ", ");
        log_query.append(" ");
        log_query.append(join(&parts.lines, " ").as_str());
        let projection = match projection {
            Some(p) => Some(p.clone()),
            None => None,
        };
        LokiLogScanExec::try_new(
            self.endpoint.clone(),
            copy_texts(&self.labels),
            log_query,
            parts.start,
            parts.end,
            projection,
            limit,
        )
    }

    /// Says of each filter whether the store applies it exactly or not at
    /// all.
    pub fn supports_filters_pushdown(&self, filters: &[&Expr]) -> (out: Result<
        Vec<FilterPushDown>,
        LokiError,
    >)
        ensures
            out matches Ok(verdicts) && verdicts@.len() == filters@.len() && forall|i: int|
                0 <= i < filters@.len() ==> #[trigger] verdicts@[i] == push_down(
                    *filters@[i],
                    Some(self.labels@),
                ),
    {
        Ok(filters_pushdown(filters, Some(&self.labels)))
    }
}

} // verus!
