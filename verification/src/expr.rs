use vstd::prelude::*;
use vstd::string::*;

verus! {

/// A reference to a column, by optional table qualifier and name.
#[derive(Debug, Clone, PartialEq, Eq)]
pub struct Column {
    pub relation: Option<String>,
    pub name: String,
}

/// What identifies a column: its qualifier, if any, and its name.
pub type ColumnKey = (Option<Seq<char>>, Seq<char>);

impl Column {
    pub open spec fn key(self) -> ColumnKey {
        (
            match self.relation {
                Some(r) => Some(r@),
                None => None,
            },
            self.name@,
        )
    }

    /// Whether two references name the same column.
    pub fn same_as(&self, other: &Column) -> (same: bool)
        ensures
            same == (self.key() == other.key()),
    {
        let relations = match (&self.relation, &other.relation) {
            (Some(a), Some(b)) => *a == *b,
            (None, None) => true,
            _ => false,
        };
        relations && self.name == other.name
    }
}

/// The binary operators that a predicate may carry. Those that no filter
/// is made from are gathered under `Other`.
#[derive(Clone, Copy, PartialEq, Eq, Structural, Debug)]
pub enum Operator {
    Eq,
    NotEq,
    Lt,
    LtEq,
    Gt,
    GtEq,
    RegexMatch,
    RegexNotMatch,
    Other,
}

/// A literal value. Only text and nanosecond timestamps are looked into.
#[derive(Debug, Clone, PartialEq, Eq)]
pub enum ScalarValue {
    Utf8(Option<String>),
    TimestampNanosecond(Option<i64>),
    Other,
}

/// A predicate expression, as far as the translation reads it.
#[derive(Debug, PartialEq, Eq)]
pub enum Expr {
    Column(Column),
    Literal(ScalarValue),
    BinaryExpr { left: Box<Expr>, op: Operator, right: Box<Expr> },
    Like { negated: bool, expr: Box<Expr>, pattern: Box<Expr>, case_insensitive: bool },
    ScalarFunction { name: String, args: Vec<Expr> },
    /// Any other shape, with its direct subexpressions.
    Other { children: Vec<Expr> },
}

impl Expr {
    /// The set of columns that the expression refers to anywhere inside.
    pub open spec fn column_refs(self) -> Set<ColumnKey>
        decreases self,
    {
        match self {
            Expr::Column(c) => set![c.key()],
            Expr::Literal(_) => Set::empty(),
            Expr::BinaryExpr { left, right, .. } => left.column_refs().union(right.column_refs()),
            Expr::Like { expr, pattern, .. } => expr.column_refs().union(pattern.column_refs()),
            Expr::ScalarFunction { args, .. } => Set::new(
                |k: ColumnKey|
                    exists|i: int|
                        0 <= i < args@.len() && (#[trigger] args@[i]).column_refs().contains(k),
            ),
            Expr::Other { children } => Set::new(
                |k: ColumnKey|
                    exists|i: int|
                        0 <= i < children@.len() && (#[trigger] children@[i]).column_refs().contains(
                            k,
                        ),
            ),
        }
    }
}

/// Whether `key` is the one column that `e` refers to.
pub open spec fn refers_only_to(e: Expr, key: ColumnKey) -> bool {
    e.column_refs() =~= set![key]
}

/// Whether `e` refers to exactly one column, and that column is called `name`.
pub open spec fn single_column_named(e: Expr, name: Seq<char>) -> bool {
    exists|key: ColumnKey| refers_only_to(e, key) && key.1 == name
}

impl Expr {
    /// Some column that the expression refers to, if it refers to any.
    pub fn first_column(&self) -> (found: Option<&Column>)
        ensures
            found is None <==> self.column_refs() =~= Set::empty(),
            found matches Some(c) ==> self.column_refs().contains(c.key()),
        decreases self,
    {
        match self {
            Expr::Column(c) => {
                assert(set![c.key()].contains(c.key()));
                Some(c)
            },
            Expr::Literal(_) => None,
            Expr::BinaryExpr { left, right, .. } => {
                match left.first_column() {
                    Some(c) => Some(c),
                    None => right.first_column(),
                }
            },
            Expr::Like { expr, pattern, .. } => {
                match expr.first_column() {
                    Some(c) => Some(c),
                    None => pattern.first_column(),
                }
            },
            Expr::ScalarFunction { args, .. } => first_column_among(args),
            Expr::Other { children } => first_column_among(children),
        }
    }

    /// Whether every column that the expression refers to is `column`.
    pub fn refers_at_most_to(&self, column: &Column) -> (only: bool)
        ensures
            only == self.column_refs().subset_of(set![column.key()]),
        decreases self,
    {
        match self {
            Expr::Column(c) => {
                assert(set![c.key()].contains(c.key()));
                c.same_as(column)
            },
            Expr::Literal(_) => true,
            Expr::BinaryExpr { left, right, .. } => {
                left.refers_at_most_to(column) && right.refers_at_most_to(column)
            },
            Expr::Like { expr, pattern, .. } => {
                expr.refers_at_most_to(column) && pattern.refers_at_most_to(column)
            },
            Expr::ScalarFunction { args, .. } => all_refer_at_most_to(args, column),
            Expr::Other { children } => all_refer_at_most_to(children, column),
        }
    }

    /// The column that the expression refers to, if it refers to exactly one.
    pub fn single_column(&self) -> (found: Option<&Column>)
        ensures
            found matches Some(c) ==> refers_only_to(*self, c.key()),
            found is None ==> forall|key: ColumnKey| !refers_only_to(*self, key),
    {
        match self.first_column() {
            None => {
                proof {
                    assert forall|key: ColumnKey| !refers_only_to(*self, key) by {
                        assert(set![key].contains(key));
                    }
                }
                None
            },
            Some(c) => {
                if self.refers_at_most_to(c) {
                    Some(c)
                } else {
                    proof {
                        assert forall|key: ColumnKey| !refers_only_to(*self, key) by {
                            if refers_only_to(*self, key) {
                                assert(self.column_refs().contains(c.key()));
                                assert(key == c.key());
                            }
                        }
                    }
                    None
                }
            },
        }
    }
}

fn first_column_among(es: &Vec<Expr>) -> (found: Option<&Column>)
    ensures
        found is None <==> forall|i: int|
            0 <= i < es@.len() ==> (#[trigger] es@[i]).column_refs() =~= Set::empty(),
        found matches Some(c) ==> exists|i: int|
            0 <= i < es@.len() && (#[trigger] es@[i]).column_refs().contains(c.key()),
    decreases es,
{
    let mut i: usize = 0;
    while i < es.len()
        invariant
            i <= es.len(),
            forall|j: int| 0 <= j < i ==> (#[trigger] es@[j]).column_refs() =~= Set::empty(),
        decreases es.len() - i,
    {
        if let Some(c) = es[i].first_column() {
            return Some(c);
        }
        i = i + 1;
    }
    None
}

fn all_refer_at_most_to(es: &Vec<Expr>, column: &Column) -> (only: bool)
    ensures
        only == forall|i: int|
            0 <= i < es@.len() ==> (#[trigger] es@[i]).column_refs().subset_of(
                set![column.key()],
            ),
    decreases es,
{
    let mut i: usize = 0;
    while i < es.len()
        invariant
            i <= es.len(),
            forall|j: int|
                0 <= j < i ==> (#[trigger] es@[j]).column_refs().subset_of(set![column.key()]),
        decreases es.len() - i,
    {
        if !es[i].refers_at_most_to(column) {
            return false;
        }
        i = i + 1;
    }
    true
}

/// The name of the column that holds the log line.
pub open spec fn line_column() -> Seq<char> {
    "line"@
}

/// The name of the column that holds the label map.
pub open spec fn labels_column() -> Seq<char> {
    "labels"@
}

/// The name of the column that holds the timestamp.
pub open spec fn timestamp_column() -> Seq<char> {
    "timestamp"@
}

/// The name of the function that looks a key up in a map column.
pub open spec fn map_get_name() -> Seq<char> {
    "map_get"@
}

/// The text of an optional string: a null stands for the empty text.
pub open spec fn text_of(v: Option<String>) -> Seq<char> {
    match v {
        Some(s) => s@,
        None => Seq::empty(),
    }
}

/// The view of an optional string.
pub open spec fn opt_text(v: Option<String>) -> Option<Seq<char>> {
    match v {
        Some(s) => Some(s@),
        None => None,
    }
}

/// The text of `e` where `e` is a text literal.
pub open spec fn text_literal(e: Expr) -> Option<Seq<char>> {
    match e {
        Expr::Literal(ScalarValue::Utf8(v)) => Some(text_of(v)),
        _ => None,
    }
}

/// The literal of a comparison between a column and a text literal, in
/// either order.
pub open spec fn column_with_text(left: Expr, right: Expr) -> Option<Seq<char>> {
    if left is Column {
        text_literal(right)
    } else if right is Column {
        text_literal(left)
    } else {
        None
    }
}

/// Whether a `LIKE` pattern asks for a plain substring: `%text%`, with no
/// `_` anywhere.
pub open spec fn is_contains_pattern(p: Seq<char>) -> bool {
    p.len() >= 2 && p.first() == '%' && p.last() == '%' && !p.contains('_')
}

/// The `text` of a pattern `%text%`.
pub open spec fn contains_pattern_text(p: Seq<char>) -> Seq<char> {
    p.subrange(1, p.len() - 1)
}

/// What opens the line filter made from a `LIKE`.
pub open spec fn like_opening(negated: bool, case_insensitive: bool) -> Seq<char> {
    if negated {
        if case_insensitive {
            "!~ `(?i)"@
        } else {
            "!= `"@
        }
    } else {
        if case_insensitive {
            "|~ `(?i)"@
        } else {
            "|= `"@
        }
    }
}

/// The line filter that a predicate stands for, if it stands for one.
pub open spec fn line_filter(e: Expr) -> Option<Seq<char>> {
    if !single_column_named(e, line_column()) {
        None
    } else {
        match e {
            Expr::BinaryExpr { left, op, right } => match (op, column_with_text(*left, *right)) {
                (Operator::RegexMatch, Some(v)) => Some("|~`"@ + v + "`"@),
                (Operator::RegexNotMatch, Some(v)) => Some("!~`"@ + v + "`"@),
                _ => None,
            },
            Expr::Like { negated, expr, pattern, case_insensitive } => match text_literal(
                *pattern,
            ) {
                Some(p) => if *expr is Column && is_contains_pattern(p) {
                    Some(
                        like_opening(negated, case_insensitive) + contains_pattern_text(p) + "`"@,
                    )
                } else {
                    None
                },
                None => None,
            },
            _ => None,
        }
    }
}

impl Expr {
    /// Whether the expression refers to exactly one column, called `name`.
    pub fn is_single_column_named(&self, name: &String) -> (yes: bool)
        ensures
            yes == single_column_named(*self, name@),
    {
        match self.single_column() {
            Some(c) => {
                proof {
                    if c.name@ != name@ {
                        assert forall|key: ColumnKey| refers_only_to(*self, key) implies key.1
                            != name@ by {
                            assert(set![key].contains(c.key()));
                        }
                    }
                }
                c.name == *name
            },
            None => false,
        }
    }

    /// The text of the expression where it is a text literal.
    pub fn as_text_literal(&self) -> (text: Option<&str>)
        ensures
            match text {
                Some(t) => text_literal(*self) == Some(t@),
                None => text_literal(*self) is None,
            },
    {
        match self {
            Expr::Literal(ScalarValue::Utf8(Some(s))) => Some(s.as_str()),
            Expr::Literal(ScalarValue::Utf8(None)) => {
                proof {
                    reveal_strlit("");
                    assert(""@ =~= Seq::<char>::empty());
                }
                Some("")
            },
            _ => None,
        }
    }

    /// Whether the expression is a bare column reference.
    pub fn is_column(&self) -> (yes: bool)
        ensures
            yes == (*self is Column),
    {
        match self {
            Expr::Column(_) => true,
            _ => false,
        }
    }
}

/// The literal of a comparison between a column and a text literal.
fn column_with_text_of<'a>(left: &'a Expr, right: &'a Expr) -> (text: Option<&'a str>)
    ensures
        match text {
            Some(t) => column_with_text(*left, *right) == Some(t@),
            None => column_with_text(*left, *right) is None,
        },
{
    if left.is_column() {
        right.as_text_literal()
    } else if right.is_column() {
        left.as_text_literal()
    } else {
        None
    }
}

/// Whether `p` has the shape `%text%` without any `_`.
pub fn check_contains_pattern(p: &str) -> (yes: bool)
    ensures
        yes == is_contains_pattern(p@),
{
    let n = p.unicode_len();
    if n < 2 {
        return false;
    }
    if p.get_char(0) != '%' || p.get_char(n - 1) != '%' {
        return false;
    }
    let mut i: usize = 0;
    while i < n
        invariant
            i <= n,
            n == p@.len(),
            forall|j: int| 0 <= j < i ==> p@[j] != '_',
        decreases n - i,
    {
        if p.get_char(i) == '_' {
            return false;
        }
        i = i + 1;
    }
    true
}

/// `opening`, `text` and `closing`, one after the other.
fn wrap_text(opening: &str, text: &str, closing: &str) -> (out: String)
    ensures
        out@ == opening@ + text@ + closing@,
{
    let mut out = String::from_str(opening);
    out.append(text);
    out.append(closing);
    out
}

/// Translates a predicate on the line column into a line filter of the
/// query language: a regular-expression match or its negation, or a `LIKE`
/// that asks for a plain substring. Anything else is not matched.
pub fn expr_to_line_filter(expr: &Expr) -> (out: Option<String>)
    ensures
        opt_text(out) == line_filter(*expr),
{
    let line = String::from_str("line");
    if !expr.is_single_column_named(&line) {
        return None;
    }
    match expr {
        Expr::BinaryExpr { left, op, right } => {
            match column_with_text_of(left, right) {
                Some(v) => match op {
                    Operator::RegexMatch => Some(wrap_text("|~`", v, "`")),
                    Operator::RegexNotMatch => Some(wrap_text("!~`", v, "`")),
                    _ => None,
                },
                None => None,
            }
        },
        Expr::Like { negated, expr: subject, pattern, case_insensitive } => {
            match pattern.as_text_literal() {
                Some(p) => {
                    if subject.is_column() && check_contains_pattern(p) {
                        let text = p.substring_char(1, p.unicode_len() - 1);
                        let opening = if *negated {
                            if *case_insensitive {
                                "!~ `(?i)"
                            } else {
                                "!= `"
                            }
                        } else {
                            if *case_insensitive {
                                "|~ `(?i)"
                            } else {
                                "|= `"
                            }
                        };
                        Some(wrap_text(opening, text, "`"))
                    } else {
                        None
                    }
                },
                None => None,
            }
        },
        _ => None,
    }
}

/// How a comparison operator is written between a label and its value.
pub open spec fn label_operator(op: Operator) -> Option<Seq<char>> {
    match op {
        Operator::Eq => Some("="@),
        Operator::NotEq => Some("!="@),
        Operator::RegexMatch => Some("=~"@),
        Operator::RegexNotMatch => Some("!~"@),
        _ => None,
    }
}

/// The label filter `name<op>"value"`.
pub open spec fn label_fragment(name: Seq<char>, op: Seq<char>, value: Seq<char>) -> Seq<char> {
    name + op + "\""@ + value + "\""@
}

/// The key of a lookup `map_get(labels, 'key')` in the label map.
pub open spec fn label_lookup(e: Expr) -> Option<Seq<char>> {
    match e {
        Expr::ScalarFunction { name, args } => if name@ == map_get_name() && args@.len() == 2 {
            match (args@[0], args@[1]) {
                (Expr::Column(c), Expr::Literal(ScalarValue::Utf8(Some(key)))) => if c.name@
                    == labels_column() {
                    Some(key@)
                } else {
                    None
                },
                _ => None,
            }
        } else {
            None
        },
        _ => None,
    }
}

/// The label and the value of a comparison between a lookup in the label
/// map and a text literal, in either order.
pub open spec fn lookup_with_text(left: Expr, right: Expr) -> Option<(Seq<char>, Seq<char>)> {
    match (label_lookup(left), text_literal(right)) {
        (Some(k), Some(v)) => Some((k, v)),
        _ => match (text_literal(left), label_lookup(right)) {
            (Some(v), Some(k)) => Some((k, v)),
            _ => None,
        },
    }
}

/// The label filter that a predicate on the label map stands for, if it
/// stands for one.
pub open spec fn label_filter(e: Expr) -> Option<Seq<char>> {
    match e {
        Expr::BinaryExpr { left, op, right } => match (
            label_operator(op),
            lookup_with_text(*left, *right),
        ) {
            (Some(o), Some((k, v))) => Some(label_fragment(k, o, v)),
            _ => None,
        },
        _ => None,
    }
}

/// Whether `name` is one of `labels`.
pub open spec fn is_label(labels: Seq<String>, name: Seq<char>) -> bool {
    exists|i: int| 0 <= i < labels.len() && (#[trigger] labels[i])@ == name
}

/// The name of `e` where `e` is a reference to one of the label columns.
pub open spec fn label_column(e: Expr, labels: Seq<String>) -> Option<Seq<char>> {
    match e {
        Expr::Column(c) => if is_label(labels, c.name@) {
            Some(c.name@)
        } else {
            None
        },
        _ => None,
    }
}

/// The label and the value of a comparison between a label column and a
/// text literal, in either order.
pub open spec fn label_column_with_text(left: Expr, right: Expr, labels: Seq<String>) -> Option<
    (Seq<char>, Seq<char>),
> {
    match (label_column(left, labels), text_literal(right)) {
        (Some(k), Some(v)) => Some((k, v)),
        _ => match (text_literal(left), label_column(right, labels)) {
            (Some(v), Some(k)) => Some((k, v)),
            _ => None,
        },
    }
}

/// The label filter that a predicate on one of the label columns stands
/// for, if it stands for one.
pub open spec fn column_label_filter(e: Expr, labels: Seq<String>) -> Option<Seq<char>> {
    match e {
        Expr::BinaryExpr { left, op, right } => match (
            label_operator(op),
            label_column_with_text(*left, *right, labels),
        ) {
            (Some(o), Some((k, v))) => Some(label_fragment(k, o, v)),
            _ => None,
        },
        _ => None,
    }
}

/// How `op` is written in a label filter.
fn label_operator_text(op: Operator) -> (text: Option<&'static str>)
    ensures
        match text {
            Some(t) => label_operator(op) == Some(t@),
            None => label_operator(op) is None,
        },
{
    match op {
        Operator::Eq => Some("="),
        Operator::NotEq => Some("!="),
        Operator::RegexMatch => Some("=~"),
        Operator::RegexNotMatch => Some("!~"),
        _ => None,
    }
}

/// Writes the label filter `name<op>"value"`.
fn write_label_fragment(name: &str, op: &str, value: &str) -> (out: String)
    ensures
        out@ == label_fragment(name@, op@, value@),
{
    let mut out = String::from_str(name);
    out.append(op);
    out.append("\"");
    out.append(value);
    out.append("\"");
    out
}

impl Expr {
    /// The key of the expression where it is a lookup `map_get(labels, 'key')`.
    pub fn as_label_lookup(&self) -> (key: Option<&str>)
        ensures
            match key {
                Some(k) => label_lookup(*self) == Some(k@),
                None => label_lookup(*self) is None,
            },
    {
        match self {
            Expr::ScalarFunction { name, args } => {
                let map_get = String::from_str("map_get");
                if *name != map_get || args.len() != 2 {
                    return None;
                }
                match (&args[0], &args[1]) {
                    (Expr::Column(c), Expr::Literal(ScalarValue::Utf8(Some(key)))) => {
                        let labels = String::from_str("labels");
                        if c.name == labels {
                            Some(key.as_str())
                        } else {
                            None
                        }
                    },
                    _ => None,
                }
            },
            _ => None,
        }
    }

    /// The name of the expression where it is a reference to one of `labels`.
    pub fn as_label_column(&self, labels: &Vec<String>) -> (name: Option<&str>)
        ensures
            match name {
                Some(n) => label_column(*self, labels@) == Some(n@),
                None => label_column(*self, labels@) is None,
            },
    {
        match self {
            Expr::Column(c) => {
                let mut i: usize = 0;
                while i < labels.len()
                    invariant
                        i <= labels.len(),
                        *self == Expr::Column(*c),
                        forall|j: int| 0 <= j < i ==> labels@[j]@ != c.name@,
                    decreases labels.len() - i,
                {
                    if labels[i] == c.name {
                        assert(is_label(labels@, c.name@));
                        return Some(c.name.as_str());
                    }
                    i = i + 1;
                }
                None
            },
            _ => None,
        }
    }
}

/// Translates a comparison between a lookup in the label map,
/// `map_get(labels, 'key')`, and a text literal into the label filter
/// `key<op>"value"`. The operators are `=`, `!=`, regular-expression match
/// and its negation; a null value is written as the empty text. Anything
/// else is not matched.
pub fn expr_to_label_filter(expr: &Expr) -> (out: Option<String>)
    ensures
        opt_text(out) == label_filter(*expr),
{
    match expr {
        Expr::BinaryExpr { left, op, right } => {
            let Some(o) = label_operator_text(*op) else {
                return None;
            };
            match (left.as_label_lookup(), right.as_text_literal()) {
                (Some(k), Some(v)) => Some(write_label_fragment(k, o, v)),
                _ => match (left.as_text_literal(), right.as_label_lookup()) {
                    (Some(v), Some(k)) => Some(write_label_fragment(k, o, v)),
                    _ => None,
                },
            }
        },
        _ => None,
    }
}

/// Translates a comparison between one of the label columns `labels` and a
/// text literal into the label filter `name<op>"value"`, as
/// [`expr_to_label_filter`] does for a lookup in the label map. A column
/// that is not among `labels` is not matched.
pub fn expr_to_column_label_filter(expr: &Expr, labels: &Vec<String>) -> (out: Option<String>)
    ensures
        opt_text(out) == column_label_filter(*expr, labels@),
{
    match expr {
        Expr::BinaryExpr { left, op, right } => {
            let Some(o) = label_operator_text(*op) else {
                return None;
            };
            match (left.as_label_column(labels), right.as_text_literal()) {
                (Some(k), Some(v)) => Some(write_label_fragment(k, o, v)),
                _ => match (left.as_text_literal(), right.as_label_column(labels)) {
                    (Some(v), Some(k)) => Some(write_label_fragment(k, o, v)),
                    _ => None,
                },
            }
        },
        _ => None,
    }
}

/// Which end of the scanned time range a predicate constrains. The payload
/// is the new bound; `None` clears it.
#[derive(Clone, Copy, PartialEq, Eq, Structural, Debug)]
pub enum TimestampBound {
    Start(Option<i64>),
    End(Option<i64>),
}

/// The timestamp of `e` where `e` is a nanosecond timestamp literal.
pub open spec fn timestamp_literal(e: Expr) -> Option<Option<i64>> {
    match e {
        Expr::Literal(ScalarValue::TimestampNanosecond(v)) => Some(v),
        _ => None,
    }
}

/// The bound that a predicate on the timestamp column stands for, if it
/// stands for one: `timestamp < T` and `T > timestamp` end the range at
/// `T`, `timestamp > T` and `T < timestamp` start it there, and likewise
/// with `<=` and `>=`.
pub open spec fn timestamp_bound(e: Expr) -> Option<TimestampBound> {
    if !single_column_named(e, timestamp_column()) {
        None
    } else {
        match e {
            Expr::BinaryExpr { left, op, right } => {
                let column_first = *left is Column && timestamp_literal(*right) is Some;
                let column_last = timestamp_literal(*left) is Some && *right is Column;
                match op {
                    Operator::Lt | Operator::LtEq => if column_first {
                        Some(TimestampBound::End(timestamp_literal(*right)->0))
                    } else if column_last {
                        Some(TimestampBound::Start(timestamp_literal(*left)->0))
                    } else {
                        None
                    },
                    Operator::Gt | Operator::GtEq => if column_first {
                        Some(TimestampBound::Start(timestamp_literal(*right)->0))
                    } else if column_last {
                        Some(TimestampBound::End(timestamp_literal(*left)->0))
                    } else {
                        None
                    },
                    _ => None,
                }
            },
            _ => None,
        }
    }
}

impl Expr {
    /// The timestamp of the expression where it is a nanosecond timestamp
    /// literal.
    pub fn as_timestamp_literal(&self) -> (value: Option<Option<i64>>)
        ensures
            value == timestamp_literal(*self),
    {
        match self {
            Expr::Literal(ScalarValue::TimestampNanosecond(v)) => Some(*v),
            _ => None,
        }
    }
}

/// Translates a comparison between the timestamp column and a timestamp
/// literal into a bound of the scanned time range. Anything else is not
/// matched.
pub fn parse_timestamp_bound(expr: &Expr) -> (out: Option<TimestampBound>)
    ensures
        out == timestamp_bound(*expr),
{
    let timestamp = String::from_str("timestamp");
    if !expr.is_single_column_named(&timestamp) {
        return None;
    }
    match expr {
        Expr::BinaryExpr { left, op, right } => {
            let from_right = if left.is_column() {
                right.as_timestamp_literal()
            } else {
                None
            };
            let from_left = if right.is_column() {
                left.as_timestamp_literal()
            } else {
                None
            };
            match op {
                Operator::Lt | Operator::LtEq => match (from_right, from_left) {
                    (Some(v), _) => Some(TimestampBound::End(v)),
                    (None, Some(v)) => Some(TimestampBound::Start(v)),
                    (None, None) => None,
                },
                Operator::Gt | Operator::GtEq => match (from_right, from_left) {
                    (Some(v), _) => Some(TimestampBound::Start(v)),
                    (None, Some(v)) => Some(TimestampBound::End(v)),
                    (None, None) => None,
                },
                _ => None,
            }
        },
        _ => None,
    }
}

/// Whether `e` compares the column `column` with the literal `literal` by
/// `op`, the column on the left where `column_first` is set and on the
/// right where it is not.
pub open spec fn is_comparison(
    e: Expr,
    column: Column,
    op: Operator,
    literal: ScalarValue,
    column_first: bool,
) -> bool {
    &&& e matches Expr::BinaryExpr { left, op: o, right }
    &&& o == op
    &&& if column_first {
        *left == Expr::Column(column) && *right == Expr::Literal(literal)
    } else {
        *left == Expr::Literal(literal) && *right == Expr::Column(column)
    }
}

/// A comparison of a column with a literal refers to that column alone.
pub proof fn lemma_comparison_refers_to_column(
    e: Expr,
    column: Column,
    op: Operator,
    literal: ScalarValue,
    column_first: bool,
)
    requires
        is_comparison(e, column, op, literal, column_first),
    ensures
        refers_only_to(e, column.key()),
        single_column_named(e, column.name@),
{
    reveal_with_fuel(Expr::column_refs, 3);
    assert(e.column_refs() =~= set![column.key()]);
    let key = column.key();
    assert(refers_only_to(e, key) && key.1 == column.name@);
}

/// A comparison of a label column with a text by `=`, `!=`, `=~` or `!~`
/// is translated to `name<op>"value"` with the same operator, whichever
/// side the column is on, and a null value as the empty text. The same
/// comparison on a column that is no label column is not matched.
pub proof fn lemma_label_column_predicate(
    e: Expr,
    column: Column,
    op: Operator,
    value: Option<String>,
    column_first: bool,
    labels: Seq<String>,
)
    requires
        is_comparison(e, column, op, ScalarValue::Utf8(value), column_first),
        op == Operator::Eq || op == Operator::NotEq || op == Operator::RegexMatch || op
            == Operator::RegexNotMatch,
    ensures
        is_label(labels, column.name@) ==> column_label_filter(e, labels) == Some(
            column.name@ + (match op {
                Operator::Eq => "="@,
                Operator::NotEq => "!="@,
                Operator::RegexMatch => "=~"@,
                _ => "!~"@,
            }) + "\""@ + text_of(value) + "\""@,
        ),
        !is_label(labels, column.name@) ==> column_label_filter(e, labels) is None,
{
}

/// Whether `e` is the lookup `map_get(labels, 'key')` in the label map.
pub open spec fn is_label_lookup(e: Expr, key: String) -> bool {
    &&& e matches Expr::ScalarFunction { name, args }
    &&& name@ == map_get_name()
    &&& args@.len() == 2
    &&& args@[0] matches Expr::Column(c)
    &&& c.name@ == labels_column()
    &&& args@[1] == Expr::Literal(ScalarValue::Utf8(Some(key)))
}

/// A comparison of a lookup in the label map with a text by `=`, `!=`,
/// `=~` or `!~` is translated to `key<op>"value"` with the same operator,
/// whichever side the lookup is on, and a null value as the empty text.
pub proof fn lemma_label_lookup_predicate(
    e: Expr,
    lookup: Expr,
    key: String,
    op: Operator,
    value: Option<String>,
    lookup_first: bool,
)
    requires
        is_label_lookup(lookup, key),
        e matches Expr::BinaryExpr { left, op: o, right } && o == op && if lookup_first {
            *left == lookup && *right == Expr::Literal(ScalarValue::Utf8(value))
        } else {
            *left == Expr::Literal(ScalarValue::Utf8(value)) && *right == lookup
        },
        op == Operator::Eq || op == Operator::NotEq || op == Operator::RegexMatch || op
            == Operator::RegexNotMatch,
    ensures
        label_filter(e) == Some(
            key@ + (match op {
                Operator::Eq => "="@,
                Operator::NotEq => "!="@,
                Operator::RegexMatch => "=~"@,
                _ => "!~"@,
            }) + "\""@ + text_of(value) + "\""@,
        ),
{
}

/// Whether `e` is a `LIKE` of the column `column` with the text `pattern`.
pub open spec fn is_like(
    e: Expr,
    column: Column,
    pattern: Option<String>,
    negated: bool,
    case_insensitive: bool,
) -> bool {
    &&& e matches Expr::Like { negated: n, expr, pattern: p, case_insensitive: c }
    &&& n == negated
    &&& c == case_insensitive
    &&& *expr == Expr::Column(column)
    &&& *p == Expr::Literal(ScalarValue::Utf8(pattern))
}

/// A `LIKE` on the line column is translated exactly where its pattern is
/// `%text%` without any `_`: to `text` in backticks, behind `|=` for
/// `LIKE`, `!=` for `NOT LIKE`, `|~` and `(?i)` for `ILIKE`, and `!~` and
/// `(?i)` for `NOT ILIKE`. A pattern without `%` at both ends, such as
/// `a%b`, is never translated.
pub proof fn lemma_like_predicate(
    e: Expr,
    column: Column,
    pattern: Option<String>,
    negated: bool,
    case_insensitive: bool,
)
    requires
        is_like(e, column, pattern, negated, case_insensitive),
        column.name@ == line_column(),
    ensures
        is_contains_pattern(text_of(pattern)) ==> line_filter(e) == Some(
            (if negated {
                if case_insensitive {
                    "!~ `(?i)"@
                } else {
                    "!= `"@
                }
            } else {
                if case_insensitive {
                    "|~ `(?i)"@
                } else {
                    "|= `"@
                }
            }) + text_of(pattern).subrange(1, text_of(pattern).len() - 1) + "`"@,
        ),
        !is_contains_pattern(text_of(pattern)) ==> line_filter(e) is None,
        text_of(pattern).len() < 2 || text_of(pattern).first() != '%' || text_of(pattern).last()
            != '%' ==> line_filter(e) is None,
{
    reveal_with_fuel(Expr::column_refs, 3);
    assert(e.column_refs() =~= set![column.key()]);
    let key = column.key();
    assert(refers_only_to(e, key) && key.1 == column.name@);
}

/// A comparison of the timestamp column with a timestamp `T` bounds the
/// time range: `timestamp > T` and `timestamp >= T` start it at `T`,
/// `timestamp < T` and `timestamp <= T` end it at `T`, and with the
/// column on the right it is the other way round: `T > timestamp` ends
/// the range at `T`, `T < timestamp` starts it there. A null `T` clears
/// the bound.
pub proof fn lemma_timestamp_predicate(
    e: Expr,
    column: Column,
    op: Operator,
    t: Option<i64>,
    column_first: bool,
)
    requires
        is_comparison(e, column, op, ScalarValue::TimestampNanosecond(t), column_first),
        column.name@ == timestamp_column(),
    ensures
        (op == Operator::Gt || op == Operator::GtEq) && column_first ==> timestamp_bound(e)
            == Some(TimestampBound::Start(t)),
        (op == Operator::Lt || op == Operator::LtEq) && column_first ==> timestamp_bound(e)
            == Some(TimestampBound::End(t)),
        (op == Operator::Gt || op == Operator::GtEq) && !column_first ==> timestamp_bound(e)
            == Some(TimestampBound::End(t)),
        (op == Operator::Lt || op == Operator::LtEq) && !column_first ==> timestamp_bound(e)
            == Some(TimestampBound::Start(t)),
{
    lemma_comparison_refers_to_column(
        e,
        column,
        op,
        ScalarValue::TimestampNanosecond(t),
        column_first,
    );
}

} // verus!
