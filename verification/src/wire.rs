use vstd::prelude::*;
use vstd::slice::*;

verus! {

/// The bytes of an unsigned integer in the base-128 format of the plan
/// interchange: seven bits a byte, the low ones first, and the high bit of
/// a byte set where another byte follows.
pub open spec fn varint(v: nat) -> Seq<u8>
    decreases v,
{
    if v < 128 {
        seq![v as u8]
    } else {
        seq![(v % 128 + 128) as u8] + varint(v / 128)
    }
}

/// What a number read from `budget` bytes at most stays under. The last
/// of ten bytes may hold one bit only.
pub open spec fn varint_bound(budget: nat) -> nat
    decreases budget,
{
    if budget <= 1 {
        2
    } else {
        128 * varint_bound((budget - 1) as nat)
    }
}

/// The number that starts `b` and how many bytes it takes, read from
/// `budget` bytes at most. Nothing where `b` ends before the number does,
/// or where the number goes on after `budget` bytes.
pub open spec fn parse_varint_within(b: Seq<u8>, budget: nat) -> Option<(nat, nat)>
    decreases budget,
{
    if budget == 0 || b.len() == 0 {
        None
    } else if b[0] < 128 {
        if budget == 1 && b[0] >= 2 {
            None
        } else {
            Some((b[0] as nat, 1))
        }
    } else {
        match parse_varint_within(b.skip(1), (budget - 1) as nat) {
            Some((v, n)) => Some((((b[0] - 128) + 128 * v) as nat, n + 1)),
            None => None,
        }
    }
}

/// The number that starts `b`, of 64 bits at most, and how many bytes it
/// takes.
pub open spec fn parse_varint(b: Seq<u8>) -> Option<(nat, nat)> {
    parse_varint_within(b, 10)
}

/// Ten bytes hold exactly the numbers of 64 bits.
pub proof fn lemma_varint_bound_ten()
    ensures
        varint_bound(10) == 0x1_0000_0000_0000_0000,
{
    reveal_with_fuel(varint_bound, 11);
}

/// Fewer bytes hold smaller numbers.
pub proof fn lemma_varint_bound_grows(a: nat, b: nat)
    requires
        a <= b,
    ensures
        varint_bound(a) <= varint_bound(b),
    decreases b,
{
    if a < b {
        if b <= 1 {
        } else {
            lemma_varint_bound_grows(a, (b - 1) as nat);
        }
    }
}

/// What is read stays within the bytes and under the bound.
pub proof fn lemma_parse_varint_within(b: Seq<u8>, budget: nat)
    ensures
        parse_varint_within(b, budget) matches Some((v, n)) ==> 1 <= n <= b.len() && n <= budget
            && v < varint_bound(budget),
    decreases budget,
{
    if budget > 0 && b.len() > 0 && b[0] >= 128 {
        lemma_parse_varint_within(b.skip(1), (budget - 1) as nat);
    } else if budget > 1 {
        lemma_varint_bound_grows(1, (budget - 1) as nat);
    }
}

/// A number is read back from its bytes, whatever follows them.
pub proof fn lemma_parse_varint_of_varint(v: nat, rest: Seq<u8>, budget: nat)
    requires
        v < varint_bound(budget),
        budget >= 1,
    ensures
        parse_varint_within(varint(v) + rest, budget) == Some((v, varint(v).len())),
    decreases v,
{
    let b = varint(v) + rest;
    if v < 128 {
        assert(b[0] == v as u8);
    } else {
        assert(b[0] == (v % 128 + 128) as u8);
        assert(budget >= 2);
        assert(b.skip(1) =~= varint(v / 128) + rest);
        lemma_parse_varint_of_varint(v / 128, rest, (budget - 1) as nat);
    }
}

/// The bytes of a number are between one and ten.
pub proof fn lemma_varint_len(v: nat, budget: nat)
    requires
        v < varint_bound(budget),
        budget >= 1,
    ensures
        1 <= varint(v).len() <= budget,
    decreases v,
{
    if v >= 128 {
        lemma_varint_len(v / 128, (budget - 1) as nat);
    }
}

/// Appends the bytes of `v` to `buf`.
pub fn put_varint(buf: &mut Vec<u8>, v: u64)
    ensures
        final(buf)@ == old(buf)@ + varint(v as nat),
{
    let mut rest: u64 = v;
    let ghost mut written: Seq<u8> = Seq::empty();
    assert(buf@ =~= old(buf)@ + written);
    while rest >= 128
        invariant
            buf@ == old(buf)@ + written,
            varint(v as nat) == written + varint(rest as nat),
        decreases rest,
    {
        let byte: u8 = (rest % 128 + 128) as u8;
        buf.push(byte);
        proof {
            assert(varint(rest as nat) == seq![byte] + varint((rest / 128) as nat));
            assert(written + (seq![byte] + varint((rest / 128) as nat)) =~= written.push(byte)
                + varint((rest / 128) as nat));
            assert(buf@ =~= old(buf)@ + written.push(byte));
            written = written.push(byte);
        }
        rest = rest / 128;
    }
    buf.push(rest as u8);
    assert(buf@ =~= old(buf)@ + (written + varint(rest as nat)));
}

/// Reads the number that starts at `pos` in `buf`, from `budget` bytes at
/// most: the number and the position behind it.
fn take_varint_within(buf: &[u8], pos: usize, budget: u8) -> (out: Option<(u64, usize)>)
    requires
        pos <= buf@.len(),
        budget <= 10,
    ensures
        match out {
            Some((v, next)) => parse_varint_within(buf@.skip(pos as int), budget as nat) == Some(
                (v as nat, (next - pos) as nat),
            ) && pos < next <= buf@.len(),
            None => parse_varint_within(buf@.skip(pos as int), budget as nat) is None,
        },
    decreases budget,
{
    if budget == 0 || pos >= buf.len() {
        return None;
    }
    let byte = buf[pos];
    assert(buf@.skip(pos as int)[0] == byte);
    if byte < 128 {
        if budget == 1 && byte >= 2 {
            None
        } else {
            Some((byte as u64, pos + 1))
        }
    } else {
        proof {
            assert(buf@.skip(pos as int).skip(1) =~= buf@.skip(pos + 1));
            lemma_parse_varint_within(buf@.skip(pos + 1), (budget - 1) as nat);
            lemma_varint_bound_grows(budget as nat, 10);
            lemma_varint_bound_ten();
        }
        match take_varint_within(buf, pos + 1, budget - 1) {
            Some((v, next)) => {
                assert(varint_bound(budget as nat) == 128 * varint_bound((budget - 1) as nat));
                Some(((byte - 128) as u64 + 128 * v, next))
            },
            None => None,
        }
    }
}

/// Reads the number that starts at `pos` in `buf`: the number and the
/// position behind it.
pub fn take_varint(buf: &[u8], pos: usize) -> (out: Option<(u64, usize)>)
    requires
        pos <= buf@.len(),
    ensures
        match out {
            Some((v, next)) => parse_varint(buf@.skip(pos as int)) == Some(
                (v as nat, (next - pos) as nat),
            ) && pos < next <= buf@.len(),
            None => parse_varint(buf@.skip(pos as int)) is None,
        },
{
    take_varint_within(buf, pos, 10)
}

/// What a field holds, by the way it is laid out.
pub enum FieldValue {
    /// A number in the base-128 format.
    Varint(nat),
    /// Eight bytes.
    Fixed64,
    /// A length in the base-128 format, and as many bytes.
    Bytes(Seq<u8>),
    /// Four bytes.
    Fixed32,
}

/// The greatest number that a field can have.
pub const MAX_TAG: u32 = 0x1FFF_FFFF;

/// The key that starts `b`: the number of the field, the way it is laid
/// out, and how many bytes the key takes. A key is a number of 32 bits at
/// most; the layout is in its low three bits and is one of 0 to 5; the
/// number of the field is not 0.
pub open spec fn parse_key(b: Seq<u8>) -> Option<(nat, nat, nat)> {
    match parse_varint(b) {
        Some((key, n)) => if key > u32::MAX || key % 8 > 5 || key / 8 == 0 {
            None
        } else {
            Some((key / 8, key % 8, n))
        },
        None => None,
    }
}

/// The field that starts `b`: its number, what it holds, and how many
/// bytes it takes. Groups are not read.
pub open spec fn parse_field(b: Seq<u8>) -> Option<(nat, FieldValue, nat)> {
    match parse_key(b) {
        Some((tag, layout, n)) => {
            let rest = b.skip(n as int);
            if layout == 0 {
                match parse_varint(rest) {
                    Some((v, m)) => Some((tag, FieldValue::Varint(v), n + m)),
                    None => None,
                }
            } else if layout == 1 {
                if rest.len() >= 8 {
                    Some((tag, FieldValue::Fixed64, n + 8))
                } else {
                    None
                }
            } else if layout == 2 {
                match parse_varint(rest) {
                    Some((len, m)) => if m + len <= rest.len() {
                        Some(
                            (
                                tag,
                                FieldValue::Bytes(rest.subrange(m as int, (m + len) as int)),
                                n + m + len,
                            ),
                        )
                    } else {
                        None
                    },
                    None => None,
                }
            } else if layout == 5 {
                if rest.len() >= 4 {
                    Some((tag, FieldValue::Fixed32, n + 4))
                } else {
                    None
                }
            } else {
                None
            }
        },
        None => None,
    }
}

/// The fields of `b`, taken in one after the other, starting from `acc`.
/// `apply` takes a field in, or refuses it. Nothing where `b` is not a
/// run of fields or `apply` refuses one.
pub open spec fn parse_message<A>(
    b: Seq<u8>,
    acc: A,
    apply: spec_fn(A, nat, FieldValue) -> Option<A>,
) -> Option<A>
    decreases b.len(),
{
    if b.len() == 0 {
        Some(acc)
    } else {
        match parse_field(b) {
            Some((tag, value, n)) => if 0 < n <= b.len() {
                match apply(acc, tag, value) {
                    Some(next) => parse_message(b.skip(n as int), next, apply),
                    None => None,
                }
            } else {
                None
            },
            None => None,
        }
    }
}

/// The bytes of a field that holds a number.
pub open spec fn varint_field(tag: nat, v: nat) -> Seq<u8> {
    varint(tag * 8) + varint(v)
}

/// The bytes of a field that holds bytes.
pub open spec fn bytes_field(tag: nat, payload: Seq<u8>) -> Seq<u8> {
    varint(tag * 8 + 2) + varint(payload.len()) + payload
}

/// A field that holds a number is read back from its bytes.
pub proof fn lemma_parse_varint_field(tag: nat, v: nat, rest: Seq<u8>)
    requires
        1 <= tag <= MAX_TAG,
        v <= u64::MAX,
    ensures
        parse_field(varint_field(tag, v) + rest) == Some(
            (tag, FieldValue::Varint(v), varint_field(tag, v).len()),
        ),
        (varint_field(tag, v) + rest).skip(varint_field(tag, v).len() as int) == rest,
        varint_field(tag, v).len() > 0,
{
    lemma_varint_bound_ten();
    let key = tag * 8;
    let b = varint_field(tag, v) + rest;
    assert(b =~= varint(key) + (varint(v) + rest));
    lemma_parse_varint_of_varint(key, varint(v) + rest, 10);
    lemma_varint_len(key, 10);
    let n = varint(key).len();
    assert(b.skip(n as int) =~= varint(v) + rest);
    lemma_parse_varint_of_varint(v, rest, 10);
    lemma_varint_len(v, 10);
    assert(b.skip(varint_field(tag, v).len() as int) =~= rest);
}

/// A field that holds bytes is read back from its bytes.
pub proof fn lemma_parse_bytes_field(tag: nat, payload: Seq<u8>, rest: Seq<u8>)
    requires
        1 <= tag <= MAX_TAG,
        payload.len() <= u64::MAX,
    ensures
        parse_field(bytes_field(tag, payload) + rest) == Some(
            (tag, FieldValue::Bytes(payload), bytes_field(tag, payload).len()),
        ),
        (bytes_field(tag, payload) + rest).skip(bytes_field(tag, payload).len() as int) == rest,
        bytes_field(tag, payload).len() > 0,
{
    lemma_varint_bound_ten();
    let key = tag * 8 + 2;
    let b = bytes_field(tag, payload) + rest;
    let tail = varint(payload.len()) + payload + rest;
    assert(b =~= varint(key) + tail);
    lemma_parse_varint_of_varint(key, tail, 10);
    lemma_varint_len(key, 10);
    let n = varint(key).len();
    assert(b.skip(n as int) =~= tail);
    assert(tail =~= varint(payload.len()) + (payload + rest));
    lemma_parse_varint_of_varint(payload.len(), payload + rest, 10);
    lemma_varint_len(payload.len(), 10);
    let m = varint(payload.len()).len();
    assert(tail.subrange(m as int, (m + payload.len()) as int) =~= payload);
    assert(b.skip(bytes_field(tag, payload).len() as int) =~= rest);
}

/// Taking a field in from the front of a message.
pub proof fn lemma_parse_message_step<A>(
    field: Seq<u8>,
    rest: Seq<u8>,
    acc: A,
    apply: spec_fn(A, nat, FieldValue) -> Option<A>,
    tag: nat,
    value: FieldValue,
)
    requires
        field.len() > 0,
        parse_field(field + rest) == Some((tag, value, field.len())),
    ensures
        parse_message(field + rest, acc, apply) == match apply(acc, tag, value) {
            Some(next) => parse_message(rest, next, apply),
            None => None,
        },
{
    assert((field + rest).skip(field.len() as int) =~= rest);
}

/// Appends a field that holds a number.
pub fn put_varint_field(buf: &mut Vec<u8>, tag: u32, v: u64)
    requires
        1 <= tag <= MAX_TAG,
    ensures
        final(buf)@ == old(buf)@ + varint_field(tag as nat, v as nat),
{
    put_varint(buf, (tag as u64) * 8);
    put_varint(buf, v);
    assert(final(buf)@ =~= old(buf)@ + varint_field(tag as nat, v as nat));
}

/// Appends a field that holds bytes.
pub fn put_bytes_field(buf: &mut Vec<u8>, tag: u32, payload: &[u8])
    requires
        1 <= tag <= MAX_TAG,
    ensures
        final(buf)@ == old(buf)@ + bytes_field(tag as nat, payload@),
{
    put_varint(buf, (tag as u64) * 8 + 2);
    put_varint(buf, payload.len() as u64);
    let ghost head = buf@;
    buf.extend_from_slice(payload);
    assert(buf@ =~= head + payload@);
    assert(final(buf)@ =~= old(buf)@ + bytes_field(tag as nat, payload@));
}

/// What a field holds, with the bytes of a field of bytes given by their
/// place in the buffer.
#[derive(Debug, Clone, PartialEq, Eq)]
pub enum Taken {
    Varint(u64),
    Fixed64,
    Bytes { start: usize, end: usize },
    Fixed32,
}

/// Whether `taken` stands for `value` in `buf`.
pub open spec fn is_taken(buf: Seq<u8>, taken: Taken, value: FieldValue) -> bool {
    match taken {
        Taken::Varint(v) => value == FieldValue::Varint(v as nat),
        Taken::Fixed64 => value is Fixed64,
        Taken::Bytes { start, end } => start <= end <= buf.len() && value == FieldValue::Bytes(
            buf.subrange(start as int, end as int),
        ),
        Taken::Fixed32 => value is Fixed32,
    }
}

/// Reads the field that starts at `pos` in `buf`: its number, what it
/// holds, and the position behind it.
pub fn take_field(buf: &[u8], pos: usize) -> (out: Option<(u32, Taken, usize)>)
    requires
        pos <= buf@.len(),
    ensures
        match out {
            Some((tag, taken, next)) => {
                &&& pos < next <= buf@.len()
                &&& parse_field(buf@.skip(pos as int)) matches Some((t, value, n))
                &&& t == tag
                &&& n == next - pos
                &&& is_taken(buf@, taken, value)
            },
            None => parse_field(buf@.skip(pos as int)) is None,
        },
{
    let Some((key, at)) = take_varint(buf, pos) else {
        return None;
    };
    if key > 0xFFFF_FFFF || key % 8 > 5 || key / 8 == 0 {
        return None;
    }
    let tag = (key / 8) as u32;
    let layout = key % 8;
    proof {
        assert(buf@.skip(pos as int).skip(at - pos) =~= buf@.skip(at as int));
    }
    let ghost rest = buf@.skip(at as int);
    if layout == 0 {
        match take_varint(buf, at) {
            Some((v, next)) => Some((tag, Taken::Varint(v), next)),
            None => None,
        }
    } else if layout == 1 {
        if buf.len() - at >= 8 {
            Some((tag, Taken::Fixed64, at + 8))
        } else {
            None
        }
    } else if layout == 2 {
        match take_varint(buf, at) {
            Some((len, start)) => {
                if len <= (buf.len() - start) as u64 {
                    let end = start + len as usize;
                    assert(rest.subrange(start - at, (start - at) + len as int) =~= buf@.subrange(
                        start as int,
                        end as int,
                    ));
                    Some((tag, Taken::Bytes { start, end }, end))
                } else {
                    None
                }
            },
            None => None,
        }
    } else if layout == 5 {
        if buf.len() - at >= 4 {
            Some((tag, Taken::Fixed32, at + 4))
        } else {
            None
        }
    } else {
        None
    }
}

} // verus!
