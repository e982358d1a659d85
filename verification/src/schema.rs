use vstd::prelude::*;
use vstd::string::*;

verus! {

/// The type of a column, as far as this library tells types apart.
#[derive(Debug, PartialEq, Eq)]
pub enum DataType {
    Int64,
    Utf8,
    /// A nanosecond timestamp without a time zone.
    TimestampNanosecond,
    /// A record with the given fields.
    Struct(Vec<Field>),
    /// A map; the field describes its entries, a record of key and value.
    /// The flag says whether the keys are sorted.
    MapOf(Box<Field>, bool),
    /// Any other type, by its name.
    Other(String),
}

/// A named, typed column or record member.
#[derive(Debug, PartialEq, Eq)]
pub struct Field {
    pub name: String,
    pub data_type: DataType,
    pub nullable: bool,
}

/// Whether two types are the same, names of nested fields included. Types
/// that this library does not look into are the same where their names
/// are.
pub open spec fn same_type(a: DataType, b: DataType) -> bool
    decreases a,
{
    match (a, b) {
        (DataType::Int64, DataType::Int64) => true,
        (DataType::Utf8, DataType::Utf8) => true,
        (DataType::TimestampNanosecond, DataType::TimestampNanosecond) => true,
        (DataType::Struct(x), DataType::Struct(y)) => {
            &&& x@.len() == y@.len()
            &&& forall|i: int| 0 <= i < x@.len() ==> same_field(#[trigger] x@[i], y@[i])
        },
        (DataType::MapOf(x, p), DataType::MapOf(y, q)) => same_field(*x, *y) && p == q,
        (DataType::Other(x), DataType::Other(y)) => x@ == y@,
        _ => false,
    }
}

/// Whether two fields agree in name, type and nullability.
pub open spec fn same_field(a: Field, b: Field) -> bool
    decreases a,
{
    &&& a.name@ == b.name@
    &&& a.nullable == b.nullable
    &&& same_type(a.data_type, b.data_type)
}

/// Whether two schemas hold the same fields in the same order.
pub open spec fn same_schema(a: Seq<Field>, b: Seq<Field>) -> bool {
    &&& a.len() == b.len()
    &&& forall|i: int| 0 <= i < a.len() ==> same_field(#[trigger] a[i], b[i])
}

impl DataType {
    /// Decides [`same_type`].
    pub fn is_same(&self, other: &DataType) -> (same: bool)
        ensures
            same == same_type(*self, *other),
        decreases self,
    {
        match (self, other) {
            (DataType::Int64, DataType::Int64) => true,
            (DataType::Utf8, DataType::Utf8) => true,
            (DataType::TimestampNanosecond, DataType::TimestampNanosecond) => true,
            (DataType::Struct(x), DataType::Struct(y)) => schemas_match(x, y),
            (DataType::MapOf(x, p), DataType::MapOf(y, q)) => x.is_same(y) && *p == *q,
            (DataType::Other(x), DataType::Other(y)) => *x == *y,
            _ => false,
        }
    }
}

impl DataType {
    /// A copy of the type.
    pub fn copy(&self) -> (out: DataType)
        ensures
            same_type(*self, out),
        decreases self,
    {
        match self {
            DataType::Int64 => DataType::Int64,
            DataType::Utf8 => DataType::Utf8,
            DataType::TimestampNanosecond => DataType::TimestampNanosecond,
            DataType::Struct(fields) => DataType::Struct(copy_fields(fields)),
            DataType::MapOf(entries, sorted) => DataType::MapOf(Box::new(entries.copy()), *sorted),
            DataType::Other(name) => DataType::Other(name.clone()),
        }
    }
}

/// A copy of a list of fields.
pub fn copy_fields(fields: &Vec<Field>) -> (out: Vec<Field>)
    ensures
        same_schema(fields@, out@),
    decreases fields,
{
    let mut out: Vec<Field> = Vec::new();
    let mut i: usize = 0;
    while i < fields.len()
        invariant
            i <= fields.len(),
            out@.len() == i,
            forall|j: int| 0 <= j < i ==> same_field(#[trigger] fields@[j], out@[j]),
        decreases fields.len() - i,
    {
        out.push(fields[i].copy());
        i = i + 1;
    }
    out
}

impl Field {
    /// A copy of the field.
    pub fn copy(&self) -> (out: Field)
        ensures
            same_field(*self, out),
        decreases self,
    {
        Field { name: self.name.clone(), data_type: self.data_type.copy(), nullable: self.nullable }
    }

    pub fn new(name: &str, data_type: DataType, nullable: bool) -> (field: Field)
        ensures
            field.name@ == name@,
            field.data_type == data_type,
            field.nullable == nullable,
    {
        Field { name: String::from_str(name), data_type, nullable }
    }

    /// Decides [`same_field`].
    pub fn is_same(&self, other: &Field) -> (same: bool)
        ensures
            same == same_field(*self, *other),
        decreases self,
    {
        self.name == other.name && self.nullable == other.nullable && self.data_type.is_same(
            &other.data_type,
        )
    }
}

/// Decides [`same_schema`].
pub fn schemas_match(a: &Vec<Field>, b: &Vec<Field>) -> (same: bool)
    ensures
        same == same_schema(a@, b@),
    decreases a,
{
    if a.len() != b.len() {
        return false;
    }
    let mut i: usize = 0;
    while i < a.len()
        invariant
            i <= a.len(),
            a.len() == b.len(),
            forall|j: int| 0 <= j < i ==> same_field(#[trigger] a@[j], b@[j]),
        decreases a.len() - i,
    {
        if !a[i].is_same(&b[i]) {
            return false;
        }
        i = i + 1;
    }
    true
}

/// The timestamp column: a nanosecond timestamp that is never null.
pub open spec fn is_timestamp_field(f: Field) -> bool {
    &&& f.name@ == "timestamp"@
    &&& f.data_type is TimestampNanosecond
    &&& !f.nullable
}

/// A text member of a record, called `name`.
pub open spec fn is_text_field(f: Field, name: Seq<char>, nullable: bool) -> bool {
    &&& f.name@ == name
    &&& f.data_type is Utf8
    &&& f.nullable == nullable
}

/// The label column: a nullable map, with unsorted text keys that are
/// never null and text values that may be.
pub open spec fn is_labels_field(f: Field) -> bool {
    &&& f.name@ == "labels"@
    &&& f.nullable
    &&& f.data_type matches DataType::MapOf(entries, sorted)
    &&& !sorted
    &&& entries.name@ == "entries"@
    &&& !entries.nullable
    &&& entries.data_type matches DataType::Struct(members)
    &&& members@.len() == 2
    &&& is_text_field(members@[0], "keys"@, false)
    &&& is_text_field(members@[1], "values"@, true)
}

/// The line column: a nullable text.
pub open spec fn is_line_field(f: Field) -> bool {
    is_text_field(f, "line"@, true)
}

/// The schema of a log table: timestamp, labels and line, in this order.
pub open spec fn is_log_table_schema(s: Seq<Field>) -> bool {
    &&& s.len() == 3
    &&& is_timestamp_field(s[0])
    &&& is_labels_field(s[1])
    &&& is_line_field(s[2])
}

/// The schema of what an insert gives back: one count that is never null.
pub open spec fn is_count_schema(s: Seq<Field>) -> bool {
    &&& s.len() == 1
    &&& s[0].name@ == "count"@
    &&& s[0].data_type is Int64
    &&& !s[0].nullable
}

/// How many columns a log table has.
pub const LOG_TABLE_COLUMNS: usize = 3;

pub fn timestamp_field() -> (f: Field)
    ensures
        is_timestamp_field(f),
{
    Field::new("timestamp", DataType::TimestampNanosecond, false)
}

pub fn labels_field() -> (f: Field)
    ensures
        is_labels_field(f),
{
    let mut members: Vec<Field> = Vec::new();
    members.push(Field::new("keys", DataType::Utf8, false));
    members.push(Field::new("values", DataType::Utf8, true));
    let entries = Field::new("entries", DataType::Struct(members), false);
    Field::new("labels", DataType::MapOf(Box::new(entries), false), true)
}

pub fn line_field() -> (f: Field)
    ensures
        is_line_field(f),
{
    Field::new("line", DataType::Utf8, true)
}

/// The schema of a log table.
pub fn log_table_schema() -> (s: Vec<Field>)
    ensures
        is_log_table_schema(s@),
{
    let mut s: Vec<Field> = Vec::new();
    s.push(timestamp_field());
    s.push(labels_field());
    s.push(line_field());
    s
}

/// The schema of what an insert gives back.
pub fn count_schema() -> (s: Vec<Field>)
    ensures
        is_count_schema(s@),
{
    let mut s: Vec<Field> = Vec::new();
    s.push(Field::new("count", DataType::Int64, false));
    s
}

/// A schema is that of a log table exactly if it matches one that is.
pub proof fn lemma_log_table_schema_match(a: Seq<Field>, b: Seq<Field>)
    requires
        is_log_table_schema(b),
    ensures
        same_schema(a, b) <==> is_log_table_schema(a),
{
    reveal_with_fuel(same_type, 4);
    reveal_with_fuel(same_field, 4);
    if same_schema(a, b) {
        assert(same_field(a[0], b[0]));
        assert(same_field(a[1], b[1]));
        assert(same_field(a[2], b[2]));
        let ea = a[1].data_type->MapOf_0;
        let eb = b[1].data_type->MapOf_0;
        assert(same_field(*ea, *eb));
        let ma = ea.data_type->Struct_0;
        let mb = eb.data_type->Struct_0;
        assert(same_field(ma@[0], mb@[0]));
        assert(same_field(ma@[1], mb@[1]));
    }
    if is_log_table_schema(a) {
        let ea = a[1].data_type->MapOf_0;
        let eb = b[1].data_type->MapOf_0;
        let ma = ea.data_type->Struct_0;
        let mb = eb.data_type->Struct_0;
        assert(same_field(ma@[0], mb@[0]));
        assert(same_field(ma@[1], mb@[1]));
        assert(same_type(ea.data_type, eb.data_type));
        assert(same_field(*ea, *eb));
        assert(same_field(a[0], b[0]));
        assert(same_field(a[1], b[1]));
        assert(same_field(a[2], b[2]));
    }
}

/// Whether `s` is the schema of a log table.
pub fn check_log_table_schema(s: &Vec<Field>) -> (yes: bool)
    ensures
        yes == is_log_table_schema(s@),
{
    let canonical = log_table_schema();
    proof {
        lemma_log_table_schema_match(s@, canonical@);
    }
    schemas_match(s, &canonical)
}

} // verus!
