use vstd::prelude::*;
use vstd::string::*;

use crate::error::LokiError;
use crate::expr::opt_text;
use crate::schema::{same_type, DataType, Field};

verus! {

/// Whether a function gives the same result for the same arguments.
#[derive(Clone, Copy, PartialEq, Eq, Structural, Debug)]
pub enum Volatility {
    Immutable,
    Stable,
    Volatile,
}

/// Which argument types a function takes.
#[derive(Clone, Copy, PartialEq, Eq, Structural, Debug)]
pub enum TypeSignature {
    /// The function says itself which types fit, by `coerce_types`.
    UserDefined,
}

/// How a function is called.
#[derive(Clone, Copy, PartialEq, Eq, Structural, Debug)]
pub struct Signature {
    pub type_signature: TypeSignature,
    pub volatility: Volatility,
}

/// The lookup of a key in a map column: `map_get(map, key)` gives, row by
/// row, the value that the map of the row holds for the key of the row.
#[derive(Debug, Clone, PartialEq, Eq)]
pub struct MapGet {
    signature: Signature,
    aliases: Vec<String>,
}

/// The fields of the entries of a map type. Nothing for a type that is no
/// map, or whose entries are no records.
pub open spec fn map_entry_fields(t: DataType) -> Option<Seq<Field>> {
    match t {
        DataType::MapOf(entries, _) => match entries.data_type {
            DataType::Struct(fields) => Some(fields@),
            _ => None,
        },
        _ => None,
    }
}

/// The fields of the entries of a map type: the key first, the value
/// last.
pub fn get_map_entry_field(data_type: &DataType) -> (out: Result<&Vec<Field>, LokiError>)
    ensures
        match out {
            Ok(fields) => map_entry_fields(*data_type) == Some(fields@),
            Err(e) => map_entry_fields(*data_type) is None && e == if *data_type is MapOf {
                LokiError::NotAStruct
            } else {
                LokiError::NotAMap
            },
        },
{
    match data_type {
        DataType::MapOf(entries, _) => match &entries.data_type {
            DataType::Struct(fields) => Ok(fields),
            _ => Err(LokiError::NotAStruct),
        },
        _ => Err(LokiError::NotAMap),
    }
}

/// What keeps a list of argument types from being those of a lookup, if
/// anything does: their number is not two, the first is no map, or the
/// entries of the map are no records of at least one field.
pub open spec fn argument_fault(arg_types: Seq<DataType>) -> Option<LokiError> {
    if arg_types.len() != 2 {
        Some(LokiError::ArgumentCount { expected: 2, found: arg_types.len() as usize })
    } else if !(arg_types[0] is MapOf) {
        Some(LokiError::NotAMap)
    } else if map_entry_fields(arg_types[0]) is None || map_entry_fields(arg_types[0])->0.len()
        == 0 {
        Some(LokiError::NotAStruct)
    } else {
        None
    }
}

impl MapGet {
    pub fn new() -> (out: Self)
        ensures
            out.spec_signature() == (Signature {
                type_signature: TypeSignature::UserDefined,
                volatility: Volatility::Immutable,
            }),
            out.spec_aliases().len() == 0,
    {
        MapGet {
            signature: Signature {
                type_signature: TypeSignature::UserDefined,
                volatility: Volatility::Immutable,
            },
            aliases: Vec::new(),
        }
    }

    pub closed spec fn spec_signature(&self) -> Signature {
        self.signature
    }

    pub closed spec fn spec_aliases(&self) -> Seq<String> {
        self.aliases@
    }

    /// The name under which the function is called.
    pub fn name(&self) -> (out: &'static str)
        ensures
            out@ == crate::expr::map_get_name(),
    {
        "map_get"
    }

    /// How the function is called: it says itself which types fit, and it
    /// gives the same result for the same arguments.
    #[verifier::when_used_as_spec(spec_signature)]
    pub fn signature(&self) -> (out: Signature)
        ensures
            out == self.spec_signature(),
    {
        self.signature
    }

    /// The other names of the function: none.
    pub fn aliases(&self) -> (out: &Vec<String>)
        ensures
            out@ == self.spec_aliases(),
    {
        &self.aliases
    }

    /// The type of the result: the type of the values of the map, which
    /// is the first of the two arguments.
    pub fn return_type(&self, arg_types: &[DataType]) -> (out: Result<DataType, LokiError>)
        ensures
            match out {
                Ok(t) => argument_fault(arg_types@) is None && same_type(
                    map_entry_fields(arg_types@[0])->0.last().data_type,
                    t,
                ),
                Err(e) => argument_fault(arg_types@) == Some(e),
            },
    {
        if arg_types.len() != 2 {
            return Err(LokiError::ArgumentCount { expected: 2, found: arg_types.len() });
        }
        let fields = match get_map_entry_field(&arg_types[0]) {
            Ok(fields) => fields,
            Err(e) => {
                return Err(e);
            },
        };
        if fields.len() == 0 {
            return Err(LokiError::NotAStruct);
        }
        Ok(fields[fields.len() - 1].data_type.copy())
    }

    /// The types that the arguments are brought to: the map as it is, and
    /// the key as the type of the keys of the map.
    pub fn coerce_types(&self, arg_types: &[DataType]) -> (out: Result<
        Vec<DataType>,
        LokiError,
    >)
        ensures
            match out {
                Ok(types) => {
                    &&& argument_fault(arg_types@) is None
                    &&& types@.len() == 2
                    &&& same_type(arg_types@[0], types@[0])
                    &&& same_type(map_entry_fields(arg_types@[0])->0.first().data_type, types@[1])
                },
                Err(e) => argument_fault(arg_types@) == Some(e),
            },
    {
        if arg_types.len() != 2 {
            return Err(LokiError::ArgumentCount { expected: 2, found: arg_types.len() });
        }
        let fields = match get_map_entry_field(&arg_types[0]) {
            Ok(fields) => fields,
            Err(e) => {
                return Err(e);
            },
        };
        if fields.len() == 0 {
            return Err(LokiError::NotAStruct);
        }
        let mut types: Vec<DataType> = Vec::new();
        types.push(arg_types[0].copy());
        types.push(fields[0].data_type.copy());
        Ok(types)
    }
}

impl Default for MapGet {
    fn default() -> (out: Self)
        ensures
            out.spec_signature() == (Signature {
                type_signature: TypeSignature::UserDefined,
                volatility: Volatility::Immutable,
            }),
            out.spec_aliases().len() == 0,
    {
        Self::new()
    }
}

/// Whether a key of a map is the key that is asked for. Two nulls are the
/// same key.
pub open spec fn key_matches(key: Option<String>, query: Option<String>) -> bool {
    opt_text(key) == opt_text(query)
}

/// Whether `found` is what looking `query` up among the keys from `from`
/// up to `to` gives: the position of the first key that matches, or
/// nothing where no key does.
pub open spec fn is_lookup(
    keys: Seq<Option<String>>,
    from: int,
    to: int,
    query: Option<String>,
    found: Option<usize>,
) -> bool {
    match found {
        Some(at) => {
            &&& from <= at < to
            &&& key_matches(keys[at as int], query)
            &&& forall|j: int| from <= j < at ==> !key_matches(#[trigger] keys[j], query)
        },
        None => forall|j: int| from <= j < to ==> !key_matches(#[trigger] keys[j], query),
    }
}

/// A lookup has one result: the first match is the only first match.
pub proof fn lemma_lookup_unique(
    keys: Seq<Option<String>>,
    from: int,
    to: int,
    query: Option<String>,
    one: Option<usize>,
    other: Option<usize>,
)
    requires
        is_lookup(keys, from, to, query, one),
        is_lookup(keys, from, to, query, other),
    ensures
        one == other,
{
    match (one, other) {
        (Some(a), Some(b)) => {
            if a < b {
                assert(!key_matches(keys[a as int], query));
            } else if b < a {
                assert(!key_matches(keys[b as int], query));
            }
        },
        (Some(a), None) => {
            assert(!key_matches(keys[a as int], query));
        },
        (None, Some(b)) => {
            assert(!key_matches(keys[b as int], query));
        },
        (None, None) => {},
    }
}

/// Decides [`key_matches`].
fn keys_match(key: &Option<String>, query: &Option<String>) -> (yes: bool)
    ensures
        yes == key_matches(*key, *query),
{
    match (key, query) {
        (Some(a), Some(b)) => *a == *b,
        (None, None) => true,
        _ => false,
    }
}

/// Looks `query` up among the keys from `from` up to `to`, in storage
/// order.
pub fn lookup_key(keys: &Vec<Option<String>>, from: usize, to: usize, query: &Option<String>) -> (found:
    Option<usize>)
    requires
        from <= to <= keys@.len(),
    ensures
        is_lookup(keys@, from as int, to as int, *query, found),
{
    let mut at: usize = from;
    while at < to
        invariant
            from <= at <= to,
            to <= keys@.len(),
            forall|j: int| from <= j < at ==> !key_matches(#[trigger] keys@[j], *query),
        decreases to - at,
    {
        if keys_match(&keys[at], query) {
            return Some(at);
        }
        at = at + 1;
    }
    None
}

/// A column of maps: for every row whether it holds a map, and the keys
/// of its entries. The entries of row `r` are those from `offsets[r]` up
/// to `offsets[r + 1]`.
#[derive(Debug, Clone, PartialEq, Eq)]
pub struct MapColumn {
    pub offsets: Vec<usize>,
    pub keys: Vec<Option<String>>,
    pub valid: Vec<bool>,
}

impl MapColumn {
    /// The number of rows.
    pub open spec fn rows(&self) -> int {
        self.valid@.len() as int
    }

    /// What holds of a column that can be read: there is one offset more
    /// than rows, no offset is less than the one before, and the last is
    /// within the entries.
    pub open spec fn wf(&self) -> bool {
        &&& self.offsets@.len() == self.valid@.len() + 1
        &&& forall|i: int|
            0 <= i < self.valid@.len() ==> self.offsets@[i] <= #[trigger] self.offsets@[i + 1]
        &&& self.offsets@[self.valid@.len() as int] <= self.keys@.len()
    }

    /// Whether the column can be read.
    pub fn check(&self) -> (ok: bool)
        ensures
            ok == self.wf(),
    {
        let rows = self.valid.len();
        let offsets = self.offsets.len();
        if offsets == 0 || offsets - 1 != rows {
            return false;
        }
        let mut i: usize = 0;
        while i < rows
            invariant
                i <= rows,
                rows == self.valid@.len(),
                self.offsets@.len() == rows + 1,
                forall|j: int| 0 <= j < i ==> self.offsets@[j] <= #[trigger] self.offsets@[j + 1],
            decreases rows - i,
        {
            if self.offsets[i] > self.offsets[i + 1] {
                return false;
            }
            i = i + 1;
        }
        self.offsets[rows] <= self.keys.len()
    }
}

/// Every offset of a column that can be read is within the entries.
proof fn lemma_offsets_within(map: MapColumn, row: int)
    requires
        map.wf(),
        0 <= row <= map.rows(),
    ensures
        map.offsets@[row] <= map.offsets@[map.rows()],
    decreases map.rows() - row,
{
    if row < map.rows() {
        assert(map.offsets@[row] <= map.offsets@[row + 1]);
        lemma_offsets_within(map, row + 1);
    }
}

/// Whether `found` is what the lookup gives for the row `row` of `map`
/// and the key `query`: nothing for a row without a map; else the position,
/// among all entries of the column, of the first entry of the row whose
/// key matches, or nothing where the row has none.
pub open spec fn is_row_lookup(
    map: MapColumn,
    row: int,
    query: Option<String>,
    found: Option<usize>,
) -> bool {
    if map.valid@[row] {
        is_lookup(
            map.keys@,
            map.offsets@[row] as int,
            map.offsets@[row + 1] as int,
            query,
            found,
        )
    } else {
        found is None
    }
}

/// Looks up, row by row, the key of the row among the entries of the map
/// of the row. The entries of a row are read in storage order and the
/// first match counts, also where a key comes twice.
pub fn general_map_extract_inner(map: &MapColumn, query_keys: &Vec<Option<String>>) -> (out: Vec<
    Option<usize>,
>)
    requires
        map.wf(),
        query_keys@.len() == map.rows(),
    ensures
        out@.len() == map.rows(),
        forall|row: int|
            0 <= row < map.rows() ==> is_row_lookup(*map, row, query_keys@[row], #[trigger] out@[row]),
{
    let mut out: Vec<Option<usize>> = Vec::new();
    let mut row: usize = 0;
    while row < map.valid.len()
        invariant
            map.wf(),
            query_keys@.len() == map.rows(),
            row <= map.rows(),
            out@.len() == row,
            forall|r: int|
                0 <= r < row ==> is_row_lookup(*map, r, query_keys@[r], #[trigger] out@[r]),
        decreases map.rows() - row,
    {
        proof {
            lemma_offsets_within(*map, row + 1);
            assert(map.offsets@[row as int] <= map.offsets@[row + 1]);
        }
        let found = if map.valid[row] {
            lookup_key(&map.keys, map.offsets[row], map.offsets[row + 1], &query_keys[row])
        } else {
            None
        };
        out.push(found);
        row = row + 1;
    }
    out
}

/// What keeps a lookup from being made, if anything does.
pub open spec fn lookup_fault(map: MapColumn, query_keys: Seq<Option<String>>) -> Option<
    LokiError,
> {
    if !map.wf() {
        Some(LokiError::InvalidMapColumn)
    } else if query_keys.len() != map.rows() {
        Some(
            LokiError::MixedLength {
                expected: map.rows() as usize,
                found: query_keys.len() as usize,
            },
        )
    } else {
        None
    }
}

/// Looks up, row by row, the key of the row in the map of the row, as
/// [`general_map_extract_inner`] does. Fails on a column that cannot be
/// read, and where there are not as many keys as rows.
pub fn map_extract_inner(map: &MapColumn, query_keys: &Vec<Option<String>>) -> (out: Result<
    Vec<Option<usize>>,
    LokiError,
>)
    ensures
        match out {
            Ok(found) => {
                &&& lookup_fault(*map, query_keys@) is None
                &&& found@.len() == map.rows()
                &&& forall|row: int|
                    0 <= row < map.rows() ==> is_row_lookup(
                        *map,
                        row,
                        query_keys@[row],
                        #[trigger] found@[row],
                    )
            },
            Err(e) => lookup_fault(*map, query_keys@) == Some(e),
        },
{
    if !map.check() {
        return Err(LokiError::InvalidMapColumn);
    }
    if query_keys.len() != map.valid.len() {
        return Err(
            LokiError::MixedLength { expected: map.valid.len(), found: query_keys.len() },
        );
    }
    Ok(general_map_extract_inner(map, query_keys))
}

/// The value that a lookup gives: the value of the entry that was found,
/// which may be null, and null where none was found.
pub open spec fn value_found<V>(values: Seq<Option<V>>, found: Option<usize>) -> Option<V> {
    match found {
        Some(at) => values[at as int],
        None => None,
    }
}

/// What a reference to a value refers to.
pub open spec fn referred<V>(value: Option<&V>) -> Option<V> {
    match value {
        Some(v) => Some(*v),
        None => None,
    }
}

/// Whether `value` is what the lookup gives for the row `row` of `map` and
/// the key `query`: the value of the entry that the lookup finds.
pub open spec fn is_row_value<V>(
    map: MapColumn,
    values: Seq<Option<V>>,
    row: int,
    query: Option<String>,
    value: Option<V>,
) -> bool {
    exists|found: Option<usize>| #[trigger]
        is_row_lookup(map, row, query, found) && value == value_found(values, found)
}

/// What keeps the values of a map column from being looked up, if anything
/// does.
pub open spec fn values_fault<V>(
    map: MapColumn,
    values: Seq<Option<V>>,
    query_keys: Seq<Option<String>>,
) -> Option<LokiError> {
    if !map.wf() || values.len() != map.keys@.len() {
        Some(LokiError::InvalidMapColumn)
    } else if query_keys.len() != map.rows() {
        Some(
            LokiError::MixedLength {
                expected: map.rows() as usize,
                found: query_keys.len() as usize,
            },
        )
    } else {
        None
    }
}

/// Looks up, row by row, the key of the row in the map of the row, and
/// gives the value that the map holds for it: the value of the first entry
/// of the row whose key matches, or null where the row has no such entry,
/// where the value is null, and where the row holds no map. `values` are
/// the values of the entries of the column, one for each key.
pub fn map_get_values<'a, V>(
    map: &MapColumn,
    values: &'a Vec<Option<V>>,
    query_keys: &Vec<Option<String>>,
) -> (out: Result<Vec<Option<&'a V>>, LokiError>)
    ensures
        match out {
            Ok(looked_up) => {
                &&& values_fault(*map, values@, query_keys@) is None
                &&& looked_up@.len() == map.rows()
                &&& forall|row: int|
                    0 <= row < map.rows() ==> is_row_value(
                        *map,
                        values@,
                        row,
                        query_keys@[row],
                        referred(#[trigger] looked_up@[row]),
                    )
            },
            Err(e) => values_fault(*map, values@, query_keys@) == Some(e),
        },
{
    if !map.check() || values.len() != map.keys.len() {
        return Err(LokiError::InvalidMapColumn);
    }
    if query_keys.len() != map.valid.len() {
        return Err(
            LokiError::MixedLength { expected: map.valid.len(), found: query_keys.len() },
        );
    }
    let found = general_map_extract_inner(map, query_keys);
    let mut looked_up: Vec<Option<&'a V>> = Vec::new();
    let mut row: usize = 0;
    while row < found.len()
        invariant
            map.wf(),
            values@.len() == map.keys@.len(),
            found@.len() == map.rows(),
            row <= found@.len(),
            looked_up@.len() == row,
            forall|r: int|
                0 <= r < map.rows() ==> is_row_lookup(*map, r, query_keys@[r], #[trigger] found@[r]),
            forall|r: int|
                0 <= r < row ==> referred(#[trigger] looked_up@[r]) == value_found(
                    values@,
                    found@[r],
                ),
        decreases found@.len() - row,
    {
        let value = match found[row] {
            Some(at) => {
                proof {
                    assert(is_row_lookup(*map, row as int, query_keys@[row as int], found@[row as int]));
                    lemma_offsets_within(*map, row + 1);
                }
                match &values[at] {
                    Some(v) => Some(v),
                    None => None,
                }
            },
            None => None,
        };
        looked_up.push(value);
        row = row + 1;
    }
    assert forall|r: int| 0 <= r < map.rows() implies is_row_value(
        *map,
        values@,
        r,
        query_keys@[r],
        referred(#[trigger] looked_up@[r]),
    ) by {
        assert(is_row_lookup(*map, r, query_keys@[r], found@[r]));
    }
    Ok(looked_up)
}

/// The map argument of a call: one map for all rows, by the keys of its
/// entries (`None` for a null), or a column of maps.
#[derive(Debug, Clone, PartialEq, Eq)]
pub enum MapArg {
    Scalar(Option<Vec<Option<String>>>),
    Array(MapColumn),
}

/// The key argument of a call: one key for all rows, or a column of keys.
#[derive(Debug, Clone, PartialEq, Eq)]
pub enum KeyArg {
    Scalar(Option<String>),
    Array(Vec<Option<String>>),
}

/// The result of a call: for each row the position of the entry whose
/// value is the result, among the entries of the map argument, or nothing
/// for a null. One result where both arguments are single values, a
/// column of results otherwise.
#[derive(Debug, Clone, PartialEq, Eq)]
pub enum Lookup {
    Scalar(Option<usize>),
    Array(Vec<Option<usize>>),
}

/// Whether `found` is what the lookup of `query` in the single map `map`
/// gives.
pub open spec fn is_scalar_lookup(
    map: Option<Vec<Option<String>>>,
    query: Option<String>,
    found: Option<usize>,
) -> bool {
    match map {
        Some(keys) => is_lookup(keys@, 0, keys@.len() as int, query, found),
        None => found is None,
    }
}

/// Whether `out` is the result of the call `map_get(map, key)`.
pub open spec fn is_invoked(map: MapArg, key: KeyArg, out: Result<Lookup, LokiError>) -> bool {
    match (map, key) {
        (MapArg::Scalar(m), KeyArg::Scalar(k)) => {
            &&& out matches Ok(Lookup::Scalar(found))
            &&& is_scalar_lookup(m, k, found)
        },
        (MapArg::Scalar(m), KeyArg::Array(ks)) => {
            &&& out matches Ok(Lookup::Array(found))
            &&& found@.len() == ks@.len()
            &&& forall|row: int|
                0 <= row < ks@.len() ==> is_scalar_lookup(m, ks@[row], #[trigger] found@[row])
        },
        (MapArg::Array(column), KeyArg::Scalar(k)) => if column.wf() {
            &&& out matches Ok(Lookup::Array(found))
            &&& found@.len() == column.rows()
            &&& forall|row: int|
                0 <= row < column.rows() ==> is_row_lookup(column, row, k, #[trigger] found@[row])
        } else {
            out matches Err(e) && e == LokiError::InvalidMapColumn
        },
        (MapArg::Array(column), KeyArg::Array(ks)) => match lookup_fault(column, ks@) {
            Some(fault) => out matches Err(e) && e == fault,
            None => {
                &&& out matches Ok(Lookup::Array(found))
                &&& found@.len() == column.rows()
                &&& forall|row: int|
                    0 <= row < column.rows() ==> is_row_lookup(
                        column,
                        row,
                        ks@[row],
                        #[trigger] found@[row],
                    )
            },
        },
    }
}

/// Looks `query` up in a single map.
fn lookup_in_scalar(map: &Option<Vec<Option<String>>>, query: &Option<String>) -> (found: Option<
    usize,
>)
    ensures
        is_scalar_lookup(*map, *query, found),
{
    match map {
        Some(keys) => lookup_key(keys, 0, keys.len(), query),
        None => None,
    }
}

impl MapGet {
    /// Calls the function. Where both arguments are single values, so is
    /// the result; else the result is a column with one row for each row
    /// of the argument that is a column, and the argument that is a
    /// single value counts for every row. Two columns have to be of one
    /// length.
    pub fn invoke_with_args(&self, map: &MapArg, key: &KeyArg) -> (out: Result<Lookup, LokiError>)
        ensures
            is_invoked(*map, *key, out),
    {
        match (map, key) {
            (MapArg::Scalar(m), KeyArg::Scalar(k)) => Ok(Lookup::Scalar(lookup_in_scalar(m, k))),
            (MapArg::Scalar(m), KeyArg::Array(ks)) => {
                let mut found: Vec<Option<usize>> = Vec::new();
                let mut row: usize = 0;
                while row < ks.len()
                    invariant
                        row <= ks@.len(),
                        found@.len() == row,
                        forall|r: int|
                            0 <= r < row ==> is_scalar_lookup(*m, ks@[r], #[trigger] found@[r]),
                    decreases ks@.len() - row,
                {
                    found.push(lookup_in_scalar(m, &ks[row]));
                    row = row + 1;
                }
                Ok(Lookup::Array(found))
            },
            (MapArg::Array(column), KeyArg::Scalar(k)) => {
                if !column.check() {
                    return Err(LokiError::InvalidMapColumn);
                }
                let mut found: Vec<Option<usize>> = Vec::new();
                let mut row: usize = 0;
                while row < column.valid.len()
                    invariant
                        column.wf(),
                        row <= column.rows(),
                        found@.len() == row,
                        forall|r: int|
                            0 <= r < row ==> is_row_lookup(*column, r, *k, #[trigger] found@[r]),
                    decreases column.rows() - row,
                {
                    proof {
                        lemma_offsets_within(*column, row + 1);
                        assert(column.offsets@[row as int] <= column.offsets@[row + 1]);
                    }
                    let one = if column.valid[row] {
                        lookup_key(&column.keys, column.offsets[row], column.offsets[row + 1], k)
                    } else {
                        None
                    };
                    found.push(one);
                    row = row + 1;
                }
                Ok(Lookup::Array(found))
            },
            (MapArg::Array(column), KeyArg::Array(ks)) => match map_extract_inner(column, ks) {
                Ok(found) => Ok(Lookup::Array(found)),
                Err(e) => Err(e),
            },
        }
    }
}

} // verus!
