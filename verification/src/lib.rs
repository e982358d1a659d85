//! A log store behind a query engine: predicates become the store's filter
//! language, scans and inserts are run step by step, plan nodes travel as
//! bytes, and a key is looked up in a map column.

pub mod codec;
pub mod error;
pub mod expr;
pub mod flat;
pub mod function;
pub mod insert;
pub mod scan;
pub mod schema;
pub mod table;
pub mod text;
pub mod utils;
pub mod wire;

pub use codec::{parse_projection, serialize_projection, LokiPhysicalCodec, PlanNode};
pub use error::{DecodeFault, ErrorKind, LokiError};
pub use expr::{
    expr_to_column_label_filter, expr_to_label_filter, expr_to_line_filter,
    parse_timestamp_bound, Column, Expr, Operator, ScalarValue, TimestampBound,
};
pub use function::{
    general_map_extract_inner, get_map_entry_field, map_extract_inner, map_get_values, KeyArg,
    Lookup, MapArg, MapColumn, MapGet,
};
pub use insert::{build_log_streams, struct_arr_to_map, LokiLogInsertExec};
pub use scan::LokiLogScanExec;
pub use schema::{DataType, Field};
pub use table::{FilterPushDown, InsertOp, LokiLogTable};
pub use utils::{current_timestamp_ns, thirty_days_before_now_timestamp_ns};

use vstd::prelude::*;

verus! {

/// What this library gives back: a value, or why there is none.
pub type DFResult<T> = Result<T, LokiError>;

} // verus!
