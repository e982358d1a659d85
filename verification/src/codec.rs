use vstd::prelude::*;
use vstd::slice::*;
use vstd::string::*;
use vstd::utf8::*;

use crate::error::{DecodeFault, LokiError};
use crate::insert::{InputPlan, LokiLogInsertExec};
use crate::scan::{
    is_projection_error, opt_indices, projection_fits, LokiLogScanExec, ScanConfig,
};
use crate::schema::{is_log_table_schema, LOG_TABLE_COLUMNS};
use crate::wire::{
    bytes_field, is_taken, lemma_parse_bytes_field, lemma_parse_message_step,
    lemma_parse_varint_field, lemma_parse_varint_of_varint, lemma_varint_bound_ten,
    lemma_varint_len, parse_message, parse_varint, put_bytes_field, put_varint,
    put_varint_field, take_field, take_varint, varint, varint_field, FieldValue, Taken,
};

verus! {

/// The list of projected columns as it travels.
#[derive(Debug, Clone, PartialEq, Eq)]
pub struct Projection {
    pub projection: Vec<usize>,
}

/// A scan as it travels: its configuration, field by field.
#[derive(Debug, Clone, PartialEq, Eq)]
pub struct ScanNode {
    pub endpoint: String,
    pub log_query: String,
    pub start: Option<i64>,
    pub end: Option<i64>,
    pub projection: Option<Projection>,
    pub limit: Option<usize>,
}

/// An insert as it travels. Its input travels beside it.
#[derive(Debug, Clone, PartialEq, Eq)]
pub struct InsertNode {
    pub endpoint: String,
}

/// The operator that a plan node holds.
#[derive(Debug, Clone, PartialEq, Eq)]
pub enum LokiPhysicalPlanType {
    Scan(ScanNode),
    Insert(InsertNode),
}

/// A plan node as it travels. A node that holds no operator can be
/// written and read, but stands for nothing.
#[derive(Debug, Clone, PartialEq, Eq)]
pub struct LokiPhysicalPlanNode {
    pub loki_physical_plan_type: Option<LokiPhysicalPlanType>,
}

/// An operator that travels, as values.
pub enum PlanView {
    Scan(ScanConfig),
    Insert { endpoint: Seq<char> },
}

/// The view of an optional list of projected columns.
pub open spec fn opt_projection(p: Option<Projection>) -> Option<Seq<usize>> {
    match p {
        Some(p) => Some(p.projection@),
        None => None,
    }
}

impl View for ScanNode {
    type V = ScanConfig;

    open spec fn view(&self) -> ScanConfig {
        ScanConfig {
            endpoint: self.endpoint@,
            log_query: self.log_query@,
            start: self.start,
            end: self.end,
            projection: opt_projection(self.projection),
            limit: self.limit,
        }
    }
}

impl View for LokiPhysicalPlanType {
    type V = PlanView;

    open spec fn view(&self) -> PlanView {
        match self {
            LokiPhysicalPlanType::Scan(scan) => PlanView::Scan(scan@),
            LokiPhysicalPlanType::Insert(insert) => PlanView::Insert {
                endpoint: insert.endpoint@,
            },
        }
    }
}

impl View for LokiPhysicalPlanNode {
    type V = Option<PlanView>;

    open spec fn view(&self) -> Option<PlanView> {
        match self.loki_physical_plan_type {
            Some(plan) => Some(plan@),
            None => None,
        }
    }
}

/// The 64 bits of a signed integer, as an unsigned one.
pub open spec fn signed_bits(x: int) -> nat {
    if x >= 0 {
        x as nat
    } else {
        (x + 0x1_0000_0000_0000_0000) as nat
    }
}

/// The signed integer that 64 bits stand for.
pub open spec fn signed_from_bits(v: nat) -> int {
    if v < 0x8000_0000_0000_0000 {
        v as int
    } else {
        v - 0x1_0000_0000_0000_0000
    }
}

/// The numbers of a packed list, one after the other.
pub open spec fn packed(values: Seq<usize>) -> Seq<u8>
    decreases values.len(),
{
    if values.len() == 0 {
        Seq::empty()
    } else {
        varint(values[0] as nat) + packed(values.skip(1))
    }
}

/// A field of text. An empty text is not written.
pub open spec fn string_field(tag: nat, text: Seq<char>) -> Seq<u8> {
    if text.len() == 0 {
        Seq::empty()
    } else {
        bytes_field(tag, encode_utf8(text))
    }
}

/// A field that is written where it is set.
pub open spec fn optional_field(field: Option<Seq<u8>>) -> Seq<u8> {
    match field {
        Some(bytes) => bytes,
        None => Seq::empty(),
    }
}

/// The bytes of a list of projected columns: one packed field, which is
/// not written where the list is empty.
pub open spec fn encode_projection(values: Seq<usize>) -> Seq<u8> {
    if values.len() == 0 {
        Seq::empty()
    } else {
        bytes_field(1, packed(values))
    }
}

/// The bytes of a scan: endpoint, query, start, end, projection and
/// limit, as the fields 1 to 6.
pub open spec fn encode_scan(c: ScanConfig) -> Seq<u8> {
    string_field(1, c.endpoint) + string_field(2, c.log_query) + optional_field(
        match c.start {
            Some(t) => Some(varint_field(3, signed_bits(t as int))),
            None => None,
        },
    ) + optional_field(
        match c.end {
            Some(t) => Some(varint_field(4, signed_bits(t as int))),
            None => None,
        },
    ) + optional_field(
        match c.projection {
            Some(p) => Some(bytes_field(5, encode_projection(p))),
            None => None,
        },
    ) + optional_field(
        match c.limit {
            Some(n) => Some(varint_field(6, n as nat)),
            None => None,
        },
    )
}

/// The bytes of an insert: the endpoint, as the field 1.
pub open spec fn encode_insert(endpoint: Seq<char>) -> Seq<u8> {
    string_field(1, endpoint)
}

/// The bytes of a plan node: a scan as the field 1, an insert as the
/// field 2, and nothing for a node that holds no operator.
pub open spec fn encode_node(node: Option<PlanView>) -> Seq<u8> {
    match node {
        Some(PlanView::Scan(c)) => bytes_field(1, encode_scan(c)),
        Some(PlanView::Insert { endpoint }) => bytes_field(2, encode_insert(endpoint)),
        None => Seq::empty(),
    }
}

/// The numbers of a packed list, added to `acc`. Nothing where the bytes
/// end inside a number, or a number is no index.
pub open spec fn parse_packed(b: Seq<u8>, acc: Seq<usize>) -> Option<Seq<usize>>
    decreases b.len(),
{
    if b.len() == 0 {
        Some(acc)
    } else {
        match parse_varint(b) {
            Some((v, n)) => if 0 < n <= b.len() && v <= usize::MAX {
                parse_packed(b.skip(n as int), acc.push(v as usize))
            } else {
                None
            },
            None => None,
        }
    }
}

/// Takes one field of a list of projected columns in: the field 1 adds
/// one column or a packed list of them; any other field is passed over.
pub open spec fn apply_projection_field(acc: Seq<usize>, tag: nat, value: FieldValue) -> Option<
    Seq<usize>,
> {
    if tag == 1 {
        match value {
            FieldValue::Varint(v) => if v <= usize::MAX {
                Some(acc.push(v as usize))
            } else {
                None
            },
            FieldValue::Bytes(b) => parse_packed(b, acc),
            _ => None,
        }
    } else {
        Some(acc)
    }
}

/// How the fields of a list of projected columns are taken in.
pub open spec fn projection_fields() -> spec_fn(Seq<usize>, nat, FieldValue) -> Option<
    Seq<usize>,
> {
    |a: Seq<usize>, t: nat, v: FieldValue| apply_projection_field(a, t, v)
}

/// The text of a field of text. Nothing where the field is laid out
/// otherwise, or its bytes are not UTF-8.
pub open spec fn text_of_field(value: FieldValue) -> Option<Seq<char>> {
    match value {
        FieldValue::Bytes(b) => if valid_utf8(b) {
            Some(decode_utf8(b))
        } else {
            None
        },
        _ => None,
    }
}

/// The signed integer of a field that holds a number.
pub open spec fn signed_of_field(value: FieldValue) -> Option<i64> {
    match value {
        FieldValue::Varint(v) => Some(signed_from_bits(v) as i64),
        _ => None,
    }
}

/// Takes one field of a scan in. A field that comes again replaces what
/// came before; a projection that comes again adds to it; a field that a
/// scan does not have is passed over.
pub open spec fn apply_scan_field(acc: ScanConfig, tag: nat, value: FieldValue) -> Option<
    ScanConfig,
> {
    if tag == 1 {
        match text_of_field(value) {
            Some(text) => Some(ScanConfig { endpoint: text, ..acc }),
            None => None,
        }
    } else if tag == 2 {
        match text_of_field(value) {
            Some(text) => Some(ScanConfig { log_query: text, ..acc }),
            None => None,
        }
    } else if tag == 3 {
        match signed_of_field(value) {
            Some(t) => Some(ScanConfig { start: Some(t), ..acc }),
            None => None,
        }
    } else if tag == 4 {
        match signed_of_field(value) {
            Some(t) => Some(ScanConfig { end: Some(t), ..acc }),
            None => None,
        }
    } else if tag == 5 {
        match value {
            FieldValue::Bytes(b) => match parse_message(
                b,
                match acc.projection {
                    Some(p) => p,
                    None => Seq::empty(),
                },
                projection_fields(),
            ) {
                Some(p) => Some(ScanConfig { projection: Some(p), ..acc }),
                None => None,
            },
            _ => None,
        }
    } else if tag == 6 {
        match value {
            FieldValue::Varint(v) => if v <= usize::MAX {
                Some(ScanConfig { limit: Some(v as usize), ..acc })
            } else {
                None
            },
            _ => None,
        }
    } else {
        Some(acc)
    }
}

/// How the fields of a scan are taken in.
pub open spec fn scan_fields() -> spec_fn(ScanConfig, nat, FieldValue) -> Option<ScanConfig> {
    |a: ScanConfig, t: nat, v: FieldValue| apply_scan_field(a, t, v)
}

/// Takes one field of an insert in.
pub open spec fn apply_insert_field(acc: Seq<char>, tag: nat, value: FieldValue) -> Option<
    Seq<char>,
> {
    if tag == 1 {
        text_of_field(value)
    } else {
        Some(acc)
    }
}

/// How the fields of an insert are taken in.
pub open spec fn insert_fields() -> spec_fn(Seq<char>, nat, FieldValue) -> Option<Seq<char>> {
    |a: Seq<char>, t: nat, v: FieldValue| apply_insert_field(a, t, v)
}

/// A scan of which nothing is set.
pub open spec fn empty_scan() -> ScanConfig {
    ScanConfig {
        endpoint: Seq::empty(),
        log_query: Seq::empty(),
        start: None,
        end: None,
        projection: None,
        limit: None,
    }
}

/// Takes one field of a plan node in. An operator of the kind that the
/// node holds already adds to it; one of the other kind replaces it.
pub open spec fn apply_node_field(acc: Option<PlanView>, tag: nat, value: FieldValue) -> Option<
    Option<PlanView>,
> {
    if tag == 1 {
        match value {
            FieldValue::Bytes(b) => match parse_message(
                b,
                match acc {
                    Some(PlanView::Scan(c)) => c,
                    _ => empty_scan(),
                },
                scan_fields(),
            ) {
                Some(c) => Some(Some(PlanView::Scan(c))),
                None => None,
            },
            _ => None,
        }
    } else if tag == 2 {
        match value {
            FieldValue::Bytes(b) => match parse_message(
                b,
                match acc {
                    Some(PlanView::Insert { endpoint }) => endpoint,
                    _ => Seq::empty(),
                },
                insert_fields(),
            ) {
                Some(endpoint) => Some(Some(PlanView::Insert { endpoint })),
                None => None,
            },
            _ => None,
        }
    } else {
        Some(acc)
    }
}

/// How the fields of a plan node are taken in.
pub open spec fn node_fields() -> spec_fn(Option<PlanView>, nat, FieldValue) -> Option<
    Option<PlanView>,
> {
    |a: Option<PlanView>, t: nat, v: FieldValue| apply_node_field(a, t, v)
}

/// The plan node that bytes stand for. Nothing where the bytes are not a
/// run of fields, end inside one, or hold an operator that is not laid
/// out as it should be.
pub open spec fn decode_node(b: Seq<u8>) -> Option<Option<PlanView>> {
    parse_message(b, None, node_fields())
}

/// `String::from_utf8` of std: the string whose bytes are `bytes`, where
/// `bytes` are UTF-8, and nothing where they are not.
#[verifier::external_body]
fn string_from_utf8(bytes: Vec<u8>) -> (out: Option<String>)
    ensures
        out is Some <==> valid_utf8(bytes@),
        out matches Some(s) ==> encode_utf8(s@) == bytes@,
{
    match String::from_utf8(bytes) {
        Ok(s) => Some(s),
        Err(_) => None,
    }
}

/// The 64 bits of a signed integer.
fn bits_of_signed(x: i64) -> (v: u64)
    ensures
        v == signed_bits(x as int),
{
    if x >= 0 {
        x as u64
    } else {
        (x as i128 + 0x1_0000_0000_0000_0000) as u64
    }
}

/// The signed integer that 64 bits stand for.
fn signed_of_bits(v: u64) -> (x: i64)
    ensures
        x == signed_from_bits(v as nat),
{
    if v < 0x8000_0000_0000_0000 {
        v as i64
    } else {
        (v as i128 - 0x1_0000_0000_0000_0000) as i64
    }
}

/// Appends a field of text.
fn put_string_field(buf: &mut Vec<u8>, tag: u32, text: &str)
    requires
        1 <= tag <= crate::wire::MAX_TAG,
    ensures
        final(buf)@ == old(buf)@ + string_field(tag as nat, text@),
{
    if text.is_empty() {
        assert(buf@ =~= old(buf)@ + Seq::<u8>::empty());
    } else {
        put_bytes_field(buf, tag, text.as_bytes());
    }
}

/// Appends the numbers of a packed list.
fn put_packed(buf: &mut Vec<u8>, values: &Vec<usize>)
    ensures
        final(buf)@ == old(buf)@ + packed(values@),
{
    let mut i: usize = 0;
    let ghost mut written: Seq<u8> = Seq::empty();
    assert(buf@ =~= old(buf)@ + written);
    assert(values@.skip(0) =~= values@);
    while i < values.len()
        invariant
            i <= values.len(),
            buf@ == old(buf)@ + written,
            packed(values@) == written + packed(values@.skip(i as int)),
        decreases values.len() - i,
    {
        let ghost head = buf@;
        put_varint(buf, values[i] as u64);
        proof {
            let tail = values@.skip(i as int);
            let number = varint(values@[i as int] as nat);
            assert(tail[0] == values@[i as int]);
            assert(tail.skip(1) =~= values@.skip(i + 1));
            assert(written + (number + packed(values@.skip(i + 1))) =~= (written + number)
                + packed(values@.skip(i + 1)));
            assert(buf@ =~= old(buf)@ + (written + number));
            written = written + number;
        }
        i = i + 1;
    }
    assert(packed(values@.skip(values.len() as int)) =~= Seq::<u8>::empty());
    assert(written + Seq::<u8>::empty() =~= written);
}

impl Projection {
    /// The bytes of the list.
    pub fn encode(&self) -> (out: Vec<u8>)
        ensures
            out@ == encode_projection(self.projection@),
            packed(self.projection@).len() <= u64::MAX,
    {
        let mut out: Vec<u8> = Vec::new();
        let mut numbers: Vec<u8> = Vec::new();
        put_packed(&mut numbers, &self.projection);
        assert(numbers@ =~= packed(self.projection@));
        assert(numbers.len() <= usize::MAX);
        if self.projection.len() > 0 {
            put_bytes_field(&mut out, 1, numbers.as_slice());
            assert(out@ =~= bytes_field(1, packed(self.projection@)));
        }
        out
    }
}

impl ScanNode {
    /// The bytes of the scan.
    pub fn encode(&self) -> (out: Vec<u8>)
        ensures
            out@ == encode_scan(self@),
            scan_fits(self@),
    {
        let mut out: Vec<u8> = Vec::new();
        let endpoint_len = self.endpoint.as_str().as_bytes().len();
        let log_query_len = self.log_query.as_str().as_bytes().len();
        assert(encode_utf8(self.endpoint@).len() == endpoint_len);
        assert(encode_utf8(self.log_query@).len() == log_query_len);
        put_string_field(&mut out, 1, self.endpoint.as_str());
        put_string_field(&mut out, 2, self.log_query.as_str());
        let ghost texts = out@;
        assert(texts =~= string_field(1, self@.endpoint) + string_field(2, self@.log_query));
        if let Some(t) = self.start {
            put_varint_field(&mut out, 3, bits_of_signed(t));
        }
        let ghost with_start = out@;
        assert(with_start =~= texts + optional_field(
            match self@.start {
                Some(t) => Some(varint_field(3, signed_bits(t as int))),
                None => None,
            },
        ));
        if let Some(t) = self.end {
            put_varint_field(&mut out, 4, bits_of_signed(t));
        }
        let ghost with_end = out@;
        assert(with_end =~= with_start + optional_field(
            match self@.end {
                Some(t) => Some(varint_field(4, signed_bits(t as int))),
                None => None,
            },
        ));
        if let Some(p) = &self.projection {
            let inner = p.encode();
            assert(inner.len() <= usize::MAX);
            put_bytes_field(&mut out, 5, inner.as_slice());
        }
        let ghost with_projection = out@;
        assert(with_projection =~= with_end + optional_field(
            match self@.projection {
                Some(p) => Some(bytes_field(5, encode_projection(p))),
                None => None,
            },
        ));
        if let Some(n) = self.limit {
            put_varint_field(&mut out, 6, n as u64);
        }
        assert(out@ =~= with_projection + optional_field(
            match self@.limit {
                Some(n) => Some(varint_field(6, n as nat)),
                None => None,
            },
        ));
        assert(out.len() <= usize::MAX);
        out
    }
}

impl InsertNode {
    /// The bytes of the insert.
    pub fn encode(&self) -> (out: Vec<u8>)
        ensures
            out@ == encode_insert(self.endpoint@),
            encode_utf8(self.endpoint@).len() <= u64::MAX,
    {
        let mut out: Vec<u8> = Vec::new();
        let endpoint_len = self.endpoint.as_str().as_bytes().len();
        assert(encode_utf8(self.endpoint@).len() == endpoint_len);
        put_string_field(&mut out, 1, self.endpoint.as_str());
        assert(out@ =~= string_field(1, self.endpoint@));
        out
    }
}

impl LokiPhysicalPlanNode {
    /// Appends the bytes of the plan node to `buf`.
    pub fn encode(&self, buf: &mut Vec<u8>)
        ensures
            final(buf)@ == old(buf)@ + encode_node(self@),
            node_fits(self@),
    {
        match &self.loki_physical_plan_type {
            Some(LokiPhysicalPlanType::Scan(scan)) => {
                let inner = scan.encode();
                put_bytes_field(buf, 1, inner.as_slice());
            },
            Some(LokiPhysicalPlanType::Insert(insert)) => {
                let inner = insert.encode();
                assert(inner.len() <= usize::MAX);
                put_bytes_field(buf, 2, inner.as_slice());
            },
            None => {
                assert(buf@ =~= old(buf)@ + Seq::<u8>::empty());
            },
        }
    }
}

/// Reads a field of text.
fn read_text(buf: &[u8], taken: &Taken) -> (out: Option<String>)
    ensures
        forall|value: FieldValue|
            is_taken(buf@, *taken, value) ==> match out {
                Some(text) => text_of_field(value) == Some(text@),
                None => text_of_field(value) is None,
            },
{
    match taken {
        Taken::Bytes { start, end } => {
            if *start > *end || *end > buf.len() {
                return None;
            }
            let bytes = slice_to_vec(slice_subrange(buf, *start, *end));
            match string_from_utf8(bytes) {
                Some(text) => {
                    proof {
                        encode_utf8_decode_utf8(text@);
                    }
                    Some(text)
                },
                None => None,
            }
        },
        _ => None,
    }
}

/// Reads the numbers of a packed list and adds them to `acc`.
fn read_packed(buf: &[u8], acc: Vec<usize>) -> (out: Option<Vec<usize>>)
    ensures
        match out {
            Some(values) => parse_packed(buf@, acc@) == Some(values@),
            None => parse_packed(buf@, acc@) is None,
        },
{
    let mut values = acc;
    let mut pos: usize = 0;
    assert(buf@.skip(0) =~= buf@);
    while pos < buf.len()
        invariant
            pos <= buf@.len(),
            parse_packed(buf@, acc@) == parse_packed(buf@.skip(pos as int), values@),
        decreases buf@.len() - pos,
    {
        match take_varint(buf, pos) {
            Some((v, next)) => {
                if v > usize::MAX as u64 {
                    return None;
                }
                values.push(v as usize);
                assert(buf@.skip(pos as int).skip(next - pos) =~= buf@.skip(next as int));
                pos = next;
            },
            None => {
                return None;
            },
        }
    }
    Some(values)
}

/// Reads the fields of a list of projected columns and adds the columns
/// to `acc`.
fn read_projection(buf: &[u8], acc: Vec<usize>) -> (out: Option<Vec<usize>>)
    ensures
        match out {
            Some(values) => parse_message(buf@, acc@, projection_fields()) == Some(values@),
            None => parse_message(buf@, acc@, projection_fields()) is None,
        },
{
    let mut values = acc;
    let mut pos: usize = 0;
    assert(buf@.skip(0) =~= buf@);
    while pos < buf.len()
        invariant
            pos <= buf@.len(),
            parse_message(buf@, acc@, projection_fields()) == parse_message(
                buf@.skip(pos as int),
                values@,
                projection_fields(),
            ),
        decreases buf@.len() - pos,
    {
        let Some((tag, taken, next)) = take_field(buf, pos) else {
            return None;
        };
        assert(buf@.skip(pos as int).skip(next - pos) =~= buf@.skip(next as int));
        if tag == 1 {
            match taken {
                Taken::Varint(v) => {
                    if v > usize::MAX as u64 {
                        return None;
                    }
                    values.push(v as usize);
                },
                Taken::Bytes { start, end } => {
                    match read_packed(slice_subrange(buf, start, end), values) {
                        Some(more) => {
                            values = more;
                        },
                        None => {
                            return None;
                        },
                    }
                },
                _ => {
                    return None;
                },
            }
        }
        pos = next;
    }
    Some(values)
}

/// The columns of an optional list, or none.
fn columns_so_far(projection: Option<Projection>) -> (out: Vec<usize>)
    ensures
        out@ == match opt_projection(projection) {
            Some(p) => p,
            None => Seq::empty(),
        },
{
    match projection {
        Some(p) => p.projection,
        None => Vec::new(),
    }
}

/// Reads the fields of a scan into `acc`.
fn read_scan(buf: &[u8], acc: ScanNode) -> (out: Option<ScanNode>)
    ensures
        match out {
            Some(scan) => parse_message(buf@, acc@, scan_fields()) == Some(scan@),
            None => parse_message(buf@, acc@, scan_fields()) is None,
        },
{
    let mut scan = acc;
    let mut pos: usize = 0;
    assert(buf@.skip(0) =~= buf@);
    while pos < buf.len()
        invariant
            pos <= buf@.len(),
            parse_message(buf@, acc@, scan_fields()) == parse_message(
                buf@.skip(pos as int),
                scan@,
                scan_fields(),
            ),
        decreases buf@.len() - pos,
    {
        let Some((tag, taken, next)) = take_field(buf, pos) else {
            return None;
        };
        assert(buf@.skip(pos as int).skip(next - pos) =~= buf@.skip(next as int));
        let ScanNode { endpoint, log_query, start, end, projection, limit } = scan;
        if tag == 1 {
            let Some(text) = read_text(buf, &taken) else {
                return None;
            };
            scan = ScanNode { endpoint: text, log_query, start, end, projection, limit };
        } else if tag == 2 {
            let Some(text) = read_text(buf, &taken) else {
                return None;
            };
            scan = ScanNode { endpoint, log_query: text, start, end, projection, limit };
        } else if tag == 3 {
            let Taken::Varint(v) = taken else {
                return None;
            };
            scan = ScanNode {
                endpoint,
                log_query,
                start: Some(signed_of_bits(v)),
                end,
                projection,
                limit,
            };
        } else if tag == 4 {
            let Taken::Varint(v) = taken else {
                return None;
            };
            scan = ScanNode {
                endpoint,
                log_query,
                start,
                end: Some(signed_of_bits(v)),
                projection,
                limit,
            };
        } else if tag == 5 {
            let Taken::Bytes { start: from, end: to } = taken else {
                return None;
            };
            let Some(columns) = read_projection(
                slice_subrange(buf, from, to),
                columns_so_far(projection),
            ) else {
                return None;
            };
            scan = ScanNode {
                endpoint,
                log_query,
                start,
                end,
                projection: Some(Projection { projection: columns }),
                limit,
            };
        } else if tag == 6 {
            let Taken::Varint(v) = taken else {
                return None;
            };
            if v > usize::MAX as u64 {
                return None;
            }
            scan = ScanNode {
                endpoint,
                log_query,
                start,
                end,
                projection,
                limit: Some(v as usize),
            };
        } else {
            scan = ScanNode { endpoint, log_query, start, end, projection, limit };
        }
        pos = next;
    }
    Some(scan)
}

/// Reads the fields of an insert into `acc`.
fn read_insert(buf: &[u8], acc: InsertNode) -> (out: Option<InsertNode>)
    ensures
        match out {
            Some(insert) => parse_message(buf@, acc.endpoint@, insert_fields()) == Some(
                insert.endpoint@,
            ),
            None => parse_message(buf@, acc.endpoint@, insert_fields()) is None,
        },
{
    let mut insert = acc;
    let mut pos: usize = 0;
    assert(buf@.skip(0) =~= buf@);
    while pos < buf.len()
        invariant
            pos <= buf@.len(),
            parse_message(buf@, acc.endpoint@, insert_fields()) == parse_message(
                buf@.skip(pos as int),
                insert.endpoint@,
                insert_fields(),
            ),
        decreases buf@.len() - pos,
    {
        let Some((tag, taken, next)) = take_field(buf, pos) else {
            return None;
        };
        assert(buf@.skip(pos as int).skip(next - pos) =~= buf@.skip(next as int));
        if tag == 1 {
            let Some(text) = read_text(buf, &taken) else {
                return None;
            };
            insert = InsertNode { endpoint: text };
        }
        pos = next;
    }
    Some(insert)
}

impl ScanNode {
    /// A scan of which nothing is set.
    pub fn empty() -> (out: ScanNode)
        ensures
            out@ == empty_scan(),
    {
        ScanNode {
            endpoint: String::new(),
            log_query: String::new(),
            start: None,
            end: None,
            projection: None,
            limit: None,
        }
    }
}

impl LokiPhysicalPlanNode {
    /// Reads a plan node from its bytes. Fields that a plan node does not
    /// have are passed over. Gives nothing where the bytes are not a run
    /// of fields, end inside one, or hold an operator that is not laid out
    /// as it should be.
    pub fn decode(buf: &[u8]) -> (out: Option<LokiPhysicalPlanNode>)
        ensures
            match out {
                Some(node) => decode_node(buf@) == Some(node@),
                None => decode_node(buf@) is None,
            },
    {
        let mut plan: Option<LokiPhysicalPlanType> = None;
        let mut pos: usize = 0;
        assert(buf@.skip(0) =~= buf@);
        while pos < buf.len()
            invariant
                pos <= buf@.len(),
                decode_node(buf@) == parse_message(
                    buf@.skip(pos as int),
                    (LokiPhysicalPlanNode { loki_physical_plan_type: plan })@,
                    node_fields(),
                ),
            decreases buf@.len() - pos,
        {
            let Some((tag, taken, next)) = take_field(buf, pos) else {
                return None;
            };
            assert(buf@.skip(pos as int).skip(next - pos) =~= buf@.skip(next as int));
            if tag == 1 {
                let Taken::Bytes { start, end } = taken else {
                    return None;
                };
                let acc = match plan {
                    Some(LokiPhysicalPlanType::Scan(scan)) => scan,
                    _ => ScanNode::empty(),
                };
                let Some(scan) = read_scan(slice_subrange(buf, start, end), acc) else {
                    return None;
                };
                plan = Some(LokiPhysicalPlanType::Scan(scan));
            } else if tag == 2 {
                let Taken::Bytes { start, end } = taken else {
                    return None;
                };
                let acc = match plan {
                    Some(LokiPhysicalPlanType::Insert(insert)) => insert,
                    _ => InsertNode { endpoint: String::new() },
                };
                let Some(insert) = read_insert(slice_subrange(buf, start, end), acc) else {
                    return None;
                };
                plan = Some(LokiPhysicalPlanType::Insert(insert));
            }
            pos = next;
        }
        Some(LokiPhysicalPlanNode { loki_physical_plan_type: plan })
    }
}

/// A packed list is read back from its bytes.
pub proof fn lemma_parse_packed(values: Seq<usize>, acc: Seq<usize>)
    ensures
        parse_packed(packed(values), acc) == Some(acc + values),
    decreases values.len(),
{
    if values.len() == 0 {
        assert(acc + values =~= acc);
    } else {
        let first = values[0] as nat;
        let rest = packed(values.skip(1));
        lemma_varint_bound_ten();
        lemma_parse_varint_of_varint(first, rest, 10);
        lemma_varint_len(first, 10);
        assert((varint(first) + rest).skip(varint(first).len() as int) =~= rest);
        lemma_parse_packed(values.skip(1), acc.push(values[0]));
        assert(acc.push(values[0]) + values.skip(1) =~= acc + values);
    }
}

/// A list of projected columns is read back from its bytes.
pub proof fn lemma_decode_projection(values: Seq<usize>)
    requires
        packed(values).len() <= u64::MAX,
    ensures
        parse_message(encode_projection(values), Seq::empty(), projection_fields()) == Some(
            values,
        ),
{
    if values.len() == 0 {
        assert(values =~= Seq::empty());
    } else {
        let field = bytes_field(1, packed(values));
        lemma_parse_bytes_field(1, packed(values), Seq::empty());
        assert(field + Seq::<u8>::empty() =~= field);
        lemma_parse_message_step(
            field,
            Seq::empty(),
            Seq::<usize>::empty(),
            projection_fields(),
            1,
            FieldValue::Bytes(packed(values)),
        );
        lemma_parse_packed(values, Seq::empty());
        assert(Seq::<usize>::empty() + values =~= values);
    }
}

/// What the field that was read holds.
spec fn field_value(read: Option<(nat, FieldValue, nat)>) -> FieldValue {
    match read {
        Some((_, value, _)) => value,
        None => FieldValue::Fixed32,
    }
}

/// A field of text is read back into the text that it was written from.
proof fn lemma_text_field(tag: nat, text: Seq<char>, rest: Seq<u8>)
    requires
        1 <= tag <= crate::wire::MAX_TAG,
        text.len() > 0,
        encode_utf8(text).len() <= u64::MAX,
    ensures
        string_field(tag, text).len() > 0,
        crate::wire::parse_field(string_field(tag, text) + rest) matches Some((t, value, n))
            && t == tag && n == string_field(tag, text).len() && text_of_field(value) == Some(
            text,
        ),
{
    lemma_parse_bytes_field(tag, encode_utf8(text), rest);
    encode_utf8_valid_utf8(text);
    encode_utf8_decode_utf8(text);
}

/// The first three fields of a scan are read back, whatever follows them.
proof fn lemma_decode_scan_head(c: ScanConfig, rest: Seq<u8>)
    requires
        encode_utf8(c.endpoint).len() <= u64::MAX,
        encode_utf8(c.log_query).len() <= u64::MAX,
    ensures
        parse_message(
            string_field(1, c.endpoint) + string_field(2, c.log_query) + optional_field(
                match c.start {
                    Some(t) => Some(varint_field(3, signed_bits(t as int))),
                    None => None,
                },
            ) + rest,
            empty_scan(),
            scan_fields(),
        ) == parse_message(
            rest,
            ScanConfig { endpoint: c.endpoint, log_query: c.log_query, start: c.start, ..empty_scan() },
            scan_fields(),
        ),
{
    let f1 = string_field(1, c.endpoint);
    let f2 = string_field(2, c.log_query);
    let f3 = optional_field(
        match c.start {
            Some(t) => Some(varint_field(3, signed_bits(t as int))),
            None => None,
        },
    );
    let a0 = empty_scan();
    let a1 = ScanConfig { endpoint: c.endpoint, ..a0 };
    let a2 = ScanConfig { log_query: c.log_query, ..a1 };
    let a3 = ScanConfig { start: c.start, ..a2 };
    let r1 = f2 + f3 + rest;
    let r2 = f3 + rest;
    assert(f1 + f2 + f3 + rest =~= f1 + r1);
    assert(r1 =~= f2 + r2);
    if c.endpoint.len() == 0 {
        assert(f1 + r1 =~= r1);
        assert(a1 == a0) by {
            assert(c.endpoint =~= Seq::empty());
        }
    } else {
        lemma_text_field(1, c.endpoint, r1);
        let value = field_value(crate::wire::parse_field(f1 + r1));
        lemma_parse_message_step(f1, r1, a0, scan_fields(), 1, value);
    }
    assert(parse_message(f1 + r1, a0, scan_fields()) == parse_message(r1, a1, scan_fields()));
    if c.log_query.len() == 0 {
        assert(f2 + r2 =~= r2);
        assert(a2 == a1) by {
            assert(c.log_query =~= Seq::empty());
        }
    } else {
        lemma_text_field(2, c.log_query, r2);
        let value = field_value(crate::wire::parse_field(f2 + r2));
        lemma_parse_message_step(f2, r2, a1, scan_fields(), 2, value);
    }
    assert(parse_message(r1, a1, scan_fields()) == parse_message(r2, a2, scan_fields()));
    match c.start {
        Some(t) => {
            let bits = signed_bits(t as int);
            lemma_parse_varint_field(3, bits, rest);
            lemma_parse_message_step(f3, rest, a2, scan_fields(), 3, FieldValue::Varint(bits));
            assert(signed_from_bits(bits) == t);
        },
        None => {
            assert(f3 + rest =~= rest);
        },
    }
    assert(parse_message(r2, a2, scan_fields()) == parse_message(rest, a3, scan_fields()));
}

/// The last three fields of a scan are read back.
proof fn lemma_decode_scan_tail(c: ScanConfig, acc: ScanConfig)
    requires
        acc == (ScanConfig { end: None, projection: None, limit: None, ..c }),
        c.projection matches Some(p) ==> packed(p).len() <= u64::MAX && encode_projection(
            p,
        ).len() <= u64::MAX,
    ensures
        parse_message(
            optional_field(
                match c.end {
                    Some(t) => Some(varint_field(4, signed_bits(t as int))),
                    None => None,
                },
            ) + optional_field(
                match c.projection {
                    Some(p) => Some(bytes_field(5, encode_projection(p))),
                    None => None,
                },
            ) + optional_field(
                match c.limit {
                    Some(n) => Some(varint_field(6, n as nat)),
                    None => None,
                },
            ),
            acc,
            scan_fields(),
        ) == Some(c),
{
    let f4 = optional_field(
        match c.end {
            Some(t) => Some(varint_field(4, signed_bits(t as int))),
            None => None,
        },
    );
    let f5 = optional_field(
        match c.projection {
            Some(p) => Some(bytes_field(5, encode_projection(p))),
            None => None,
        },
    );
    let f6 = optional_field(
        match c.limit {
            Some(n) => Some(varint_field(6, n as nat)),
            None => None,
        },
    );
    let a4 = ScanConfig { end: c.end, ..acc };
    let a5 = ScanConfig { projection: c.projection, ..a4 };
    let a6 = ScanConfig { limit: c.limit, ..a5 };
    let r4 = f5 + f6;
    assert(f4 + f5 + f6 =~= f4 + r4);
    match c.end {
        Some(t) => {
            let bits = signed_bits(t as int);
            lemma_parse_varint_field(4, bits, r4);
            lemma_parse_message_step(f4, r4, acc, scan_fields(), 4, FieldValue::Varint(bits));
            assert(signed_from_bits(bits) == t);
        },
        None => {
            assert(f4 + r4 =~= r4);
        },
    }
    assert(parse_message(f4 + r4, acc, scan_fields()) == parse_message(r4, a4, scan_fields()));
    match c.projection {
        Some(p) => {
            let inner = encode_projection(p);
            lemma_parse_bytes_field(5, inner, f6);
            lemma_parse_message_step(f5, f6, a4, scan_fields(), 5, FieldValue::Bytes(inner));
            lemma_decode_projection(p);
        },
        None => {
            assert(f5 + f6 =~= f6);
        },
    }
    assert(parse_message(r4, a4, scan_fields()) == parse_message(f6, a5, scan_fields()));
    match c.limit {
        Some(n) => {
            lemma_parse_varint_field(6, n as nat, Seq::empty());
            assert(f6 + Seq::<u8>::empty() =~= f6);
            lemma_parse_message_step(
                f6,
                Seq::empty(),
                a5,
                scan_fields(),
                6,
                FieldValue::Varint(n as nat),
            );
        },
        None => {},
    }
    assert(parse_message(f6, a5, scan_fields()) == Some(a6));
    assert(a6 == c);
}

/// The lengths of a scan that can be written: every text and the list of
/// projected columns take no more bytes than a length of 64 bits counts.
pub open spec fn scan_fits(c: ScanConfig) -> bool {
    &&& encode_utf8(c.endpoint).len() <= u64::MAX
    &&& encode_utf8(c.log_query).len() <= u64::MAX
    &&& c.projection matches Some(p) ==> packed(p).len() <= u64::MAX && encode_projection(
        p,
    ).len() <= u64::MAX
    &&& encode_scan(c).len() <= u64::MAX
}

/// The lengths of a plan node that can be written.
pub open spec fn node_fits(node: Option<PlanView>) -> bool {
    match node {
        Some(PlanView::Scan(c)) => scan_fits(c),
        Some(PlanView::Insert { endpoint }) => encode_utf8(endpoint).len() <= u64::MAX
            && encode_insert(endpoint).len() <= u64::MAX,
        None => true,
    }
}

/// A scan is read back from its bytes.
pub proof fn lemma_decode_scan(c: ScanConfig)
    requires
        scan_fits(c),
    ensures
        parse_message(encode_scan(c), empty_scan(), scan_fields()) == Some(c),
{
    let f4 = optional_field(
        match c.end {
            Some(t) => Some(varint_field(4, signed_bits(t as int))),
            None => None,
        },
    );
    let f5 = optional_field(
        match c.projection {
            Some(p) => Some(bytes_field(5, encode_projection(p))),
            None => None,
        },
    );
    let f6 = optional_field(
        match c.limit {
            Some(n) => Some(varint_field(6, n as nat)),
            None => None,
        },
    );
    let rest = f4 + f5 + f6;
    let head = string_field(1, c.endpoint) + string_field(2, c.log_query) + optional_field(
        match c.start {
            Some(t) => Some(varint_field(3, signed_bits(t as int))),
            None => None,
        },
    );
    assert(encode_scan(c) =~= head + rest);
    lemma_decode_scan_head(c, rest);
    let acc = ScanConfig {
        endpoint: c.endpoint,
        log_query: c.log_query,
        start: c.start,
        ..empty_scan()
    };
    lemma_decode_scan_tail(c, acc);
}

/// An insert is read back from its bytes.
pub proof fn lemma_decode_insert(endpoint: Seq<char>)
    requires
        encode_utf8(endpoint).len() <= u64::MAX,
    ensures
        parse_message(encode_insert(endpoint), Seq::empty(), insert_fields()) == Some(endpoint),
{
    let field = string_field(1, endpoint);
    if endpoint.len() == 0 {
        assert(endpoint =~= Seq::empty());
    } else {
        lemma_text_field(1, endpoint, Seq::empty());
        assert(field + Seq::<u8>::empty() =~= field);
        let value = field_value(crate::wire::parse_field(field));
        lemma_parse_message_step(
            field,
            Seq::empty(),
            Seq::<char>::empty(),
            insert_fields(),
            1,
            value,
        );
    }
}

/// Reading is the inverse of writing: the bytes written for a plan node
/// are read back as the same plan node, with the same endpoint, query,
/// bounds, projection and limit.
pub proof fn lemma_decode_encode(node: Option<PlanView>)
    requires
        node_fits(node),
    ensures
        decode_node(encode_node(node)) == Some(node),
{
    match node {
        Some(PlanView::Scan(c)) => {
            let inner = encode_scan(c);
            let field = bytes_field(1, inner);
            lemma_parse_bytes_field(1, inner, Seq::empty());
            assert(field + Seq::<u8>::empty() =~= field);
            lemma_parse_message_step(
                field,
                Seq::empty(),
                None::<PlanView>,
                node_fields(),
                1,
                FieldValue::Bytes(inner),
            );
            lemma_decode_scan(c);
        },
        Some(PlanView::Insert { endpoint }) => {
            let inner = encode_insert(endpoint);
            let field = bytes_field(2, inner);
            lemma_parse_bytes_field(2, inner, Seq::empty());
            assert(field + Seq::<u8>::empty() =~= field);
            lemma_parse_message_step(
                field,
                Seq::empty(),
                None::<PlanView>,
                node_fields(),
                2,
                FieldValue::Bytes(inner),
            );
            lemma_decode_insert(endpoint);
        },
        None => {},
    }
}

/// The operators that a plan can hold, as far as the codec tells them
/// apart: the two of this library, and any other by its name.
#[derive(Debug, PartialEq, Eq)]
pub enum PlanNode {
    Scan(LokiLogScanExec),
    Insert(LokiLogInsertExec),
    Unsupported { name: String },
}

/// Writes the operators of this library to bytes and reads them back, for
/// a plan that goes from one process to another.
#[derive(Debug, Clone, Copy)]
pub struct LokiPhysicalCodec;

/// The list of projected columns of an operator, as it travels.
pub fn serialize_projection(projection: Option<&Vec<usize>>) -> (out: Option<Projection>)
    ensures
        opt_projection(out) == match projection {
            Some(p) => Some(p@),
            None => None,
        },
{
    match projection {
        Some(p) => Some(Projection { projection: p.clone() }),
        None => None,
    }
}

/// The list of projected columns of an operator, from the one that
/// travelled.
pub fn parse_projection(projection: Option<&Projection>) -> (out: Option<Vec<usize>>)
    ensures
        opt_indices(out) == match projection {
            Some(p) => Some(p.projection@),
            None => None,
        },
{
    match projection {
        Some(p) => Some(p.projection.clone()),
        None => None,
    }
}

/// The operator of a plan as it travels; nothing for an operator that the
/// codec does not write.
pub open spec fn plan_view(node: PlanNode) -> Option<PlanView> {
    match node {
        PlanNode::Scan(exec) => Some(PlanView::Scan(exec@)),
        PlanNode::Insert(exec) => Some(PlanView::Insert { endpoint: exec.endpoint@ }),
        PlanNode::Unsupported { .. } => None,
    }
}

/// Whether `out` is what reading `b` gives, with `inputs` as the plans
/// that were read before and that feed the operator.
pub open spec fn is_decoded(
    b: Seq<u8>,
    inputs: Seq<InputPlan>,
    out: Result<PlanNode, LokiError>,
) -> bool {
    match decode_node(b) {
        None => out matches Err(e) && e == (LokiError::Decode { fault: DecodeFault::Malformed }),
        Some(None) => out matches Err(e) && e == (LokiError::Decode {
            fault: DecodeFault::NoPlanType,
        }),
        Some(Some(PlanView::Scan(c))) => if projection_fits(
            c.projection,
            LOG_TABLE_COLUMNS as int,
        ) {
            out matches Ok(PlanNode::Scan(exec)) && exec@ == c && exec.wf()
        } else {
            out matches Err(e) && is_projection_error(e, c.projection->0, LOG_TABLE_COLUMNS)
        },
        Some(Some(PlanView::Insert { endpoint })) => if inputs.len() != 1 {
            out matches Err(e) && e == (LokiError::InputCount { found: inputs.len() as usize })
        } else if !is_log_table_schema(inputs[0].schema@) {
            out matches Err(e) && e == LokiError::SchemaMismatch
        } else {
            out matches Ok(PlanNode::Insert(exec)) && exec.input == inputs[0] && exec.endpoint@
                == endpoint
        },
    }
}

impl LokiPhysicalCodec {
    /// Appends the bytes of an operator to `buf`. An operator that is
    /// neither a scan nor an insert of this library is refused by its
    /// name, and `buf` stays as it is.
    pub fn try_encode(&self, node: &PlanNode, buf: &mut Vec<u8>) -> (out: Result<(), LokiError>)
        ensures
            match out {
                Ok(()) => {
                    &&& plan_view(*node) is Some
                    &&& node_fits(plan_view(*node))
                    &&& final(buf)@ == old(buf)@ + encode_node(plan_view(*node))
                },
                Err(e) => {
                    &&& node matches PlanNode::Unsupported { name }
                    &&& e matches LokiError::NotImplemented { name: refused }
                    &&& refused@ == name@
                    &&& final(buf)@ == old(buf)@
                },
            },
    {
        match node {
            PlanNode::Scan(exec) => {
                let message = LokiPhysicalPlanNode {
                    loki_physical_plan_type: Some(
                        LokiPhysicalPlanType::Scan(
                            ScanNode {
                                endpoint: exec.endpoint.clone(),
                                log_query: exec.log_query.clone(),
                                start: exec.start,
                                end: exec.end,
                                projection: serialize_projection(exec.projection.as_ref()),
                                limit: exec.limit,
                            },
                        ),
                    ),
                };
                assert(message@ == plan_view(*node));
                message.encode(buf);
                Ok(())
            },
            PlanNode::Insert(exec) => {
                let message = LokiPhysicalPlanNode {
                    loki_physical_plan_type: Some(
                        LokiPhysicalPlanType::Insert(InsertNode { endpoint: exec.endpoint.clone() }),
                    ),
                };
                message.encode(buf);
                Ok(())
            },
            PlanNode::Unsupported { name } => Err(
                LokiError::NotImplemented { name: name.clone() },
            ),
        }
    }

    /// Reads an operator from its bytes. `inputs` are the plans that were
    /// read before and that feed the operator: a scan has none to use, an
    /// insert needs exactly one. Fails on bytes that are not a plan node,
    /// on a plan node that holds no operator, on a scan whose projection
    /// does not fit the log table, and on an insert with another number of
    /// inputs than one or with an input of another schema than that of a
    /// log table.
    pub fn try_decode(&self, buf: &[u8], inputs: Vec<InputPlan>) -> (out: Result<
        PlanNode,
        LokiError,
    >)
        ensures
            is_decoded(buf@, inputs@, out),
    {
        let Some(message) = LokiPhysicalPlanNode::decode(buf) else {
            return Err(LokiError::Decode { fault: DecodeFault::Malformed });
        };
        let Some(plan) = message.loki_physical_plan_type else {
            return Err(LokiError::Decode { fault: DecodeFault::NoPlanType });
        };
        match plan {
            LokiPhysicalPlanType::Scan(scan) => {
                let projection = parse_projection(scan.projection.as_ref());
                let ghost asked = opt_indices(projection);
                match LokiLogScanExec::try_new(
                    scan.endpoint,
                    scan.log_query,
                    scan.start,
                    scan.end,
                    projection,
                    scan.limit,
                ) {
                    Ok(exec) => Ok(PlanNode::Scan(exec)),
                    Err(e) => {
                        proof {
                            crate::scan::lemma_refused_projection(
                                e,
                                asked->0,
                                LOG_TABLE_COLUMNS,
                            );
                        }
                        Err(e)
                    },
                }
            },
            LokiPhysicalPlanType::Insert(insert) => {
                if inputs.len() != 1 {
                    return Err(LokiError::InputCount { found: inputs.len() });
                }
                let mut inputs = inputs;
                let input = inputs.swap_remove(0);
                match LokiLogInsertExec::try_new(input, insert.endpoint) {
                    Ok(exec) => Ok(PlanNode::Insert(exec)),
                    Err(e) => Err(e),
                }
            },
        }
    }
}

/// What is written for a scan or an insert is read back as an operator
/// with the same configuration: for a scan the same endpoint, query,
/// bounds, projection and limit; for an insert the same endpoint, on the
/// one input that is handed in.
pub proof fn lemma_round_trip(node: PlanNode, inputs: Seq<InputPlan>, out: Result<PlanNode, LokiError>)
    requires
        plan_view(node) is Some,
        node_fits(plan_view(node)),
        node matches PlanNode::Scan(exec) ==> exec.wf(),
        node matches PlanNode::Insert(exec) ==> inputs.len() == 1 && is_log_table_schema(
            inputs[0].schema@,
        ),
        is_decoded(encode_node(plan_view(node)), inputs, out),
    ensures
        out is Ok,
        plan_view(out->Ok_0) == plan_view(node),
        node is Insert ==> (out->Ok_0 matches PlanNode::Insert(exec) && exec.input == inputs[0]),
{
    lemma_decode_encode(plan_view(node));
}

} // verus!
