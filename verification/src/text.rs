use vstd::prelude::*;
use vstd::string::*;

verus! {

/// The texts of `parts` laid end to end, with `sep` between neighbours.
pub open spec fn join_spec(parts: Seq<Seq<char>>, sep: Seq<char>) -> Seq<char>
    decreases parts.len(),
{
    if parts.len() == 0 {
        Seq::empty()
    } else if parts.len() == 1 {
        parts[0]
    } else {
        join_spec(parts.drop_last(), sep) + sep + parts.last()
    }
}

/// The views of the strings of a vector, in order.
pub open spec fn views(parts: Seq<String>) -> Seq<Seq<char>> {
    parts.map_values(|s: String| s@)
}

/// Joins `parts` with `sep` between neighbours.
pub fn join(parts: &Vec<String>, sep: &str) -> (out: String)
    ensures
        out@ == join_spec(views(parts@), sep@),
{
    let mut out = String::new();
    let mut i: usize = 0;
    while i < parts.len()
        invariant
            i <= parts.len(),
            out@ == join_spec(views(parts@).take(i as int), sep@),
        decreases parts.len() - i,
    {
        proof {
            let all = views(parts@);
            assert(all.take(i + 1).drop_last() =~= all.take(i as int));
            assert(all.take(i + 1).last() == parts@[i as int]@);
            if i == 0 {
                assert(join_spec(all.take(1), sep@) == parts@[0]@);
                assert(Seq::<char>::empty() + parts@[0]@ =~= parts@[0]@);
            }
        }
        if i > 0 {
            out.append(sep);
        }
        out.append(parts[i].as_str());
        i = i + 1;
    }
    proof {
        assert(views(parts@).take(parts.len() as int) =~= views(parts@));
    }
    out
}

/// The character that writes the digit `d`.
pub open spec fn digit_char(d: int) -> char {
    if d == 0 {
        '0'
    } else if d == 1 {
        '1'
    } else if d == 2 {
        '2'
    } else if d == 3 {
        '3'
    } else if d == 4 {
        '4'
    } else if d == 5 {
        '5'
    } else if d == 6 {
        '6'
    } else if d == 7 {
        '7'
    } else if d == 8 {
        '8'
    } else {
        '9'
    }
}

/// The decimal numeral of a natural number, without leading zeros.
pub open spec fn decimal_nat(n: nat) -> Seq<char>
    decreases n,
{
    if n < 10 {
        seq![digit_char(n as int)]
    } else {
        decimal_nat(n / 10).push(digit_char((n % 10) as int))
    }
}

/// The decimal numeral of an integer, with `-` before a negative one.
pub open spec fn decimal_int(n: int) -> Seq<char> {
    if n < 0 {
        seq!['-'] + decimal_nat((-n) as nat)
    } else {
        decimal_nat(n as nat)
    }
}

/// The one-character text of a digit.
fn digit_text(d: u8) -> (text: &'static str)
    requires
        d < 10,
    ensures
        text@ == seq![digit_char(d as int)],
{
    proof {
        reveal_strlit("0");
        reveal_strlit("1");
        reveal_strlit("2");
        reveal_strlit("3");
        reveal_strlit("4");
        reveal_strlit("5");
        reveal_strlit("6");
        reveal_strlit("7");
        reveal_strlit("8");
        reveal_strlit("9");
    }
    let text = match d {
        0 => "0",
        1 => "1",
        2 => "2",
        3 => "3",
        4 => "4",
        5 => "5",
        6 => "6",
        7 => "7",
        8 => "8",
        _ => "9",
    };
    assert(text@ =~= seq![digit_char(d as int)]);
    text
}

/// Writes a natural number in decimal.
pub fn u128_to_decimal(n: u128) -> (out: String)
    ensures
        out@ == decimal_nat(n as nat),
{
    let mut out = String::from_str(digit_text((n % 10) as u8));
    let mut rest: u128 = n / 10;
    proof {
        lemma_decimal_split(n as nat);
    }
    while rest > 0
        invariant
            decimal_nat(n as nat) == if rest == 0 {
                out@
            } else {
                decimal_nat(rest as nat) + out@
            },
        decreases rest,
    {
        let mut longer = String::from_str(digit_text((rest % 10) as u8));
        longer.append(out.as_str());
        proof {
            lemma_decimal_split(rest as nat);
            let head = decimal_nat((rest / 10) as nat);
            let digit = seq![digit_char((rest % 10) as int)];
            if rest >= 10 {
                assert((head + digit) + out@ =~= head + (digit + out@));
            }
        }
        out = longer;
        rest = rest / 10;
    }
    out
}

/// A numeral is the numeral of its tens followed by its last digit.
proof fn lemma_decimal_split(n: nat)
    ensures
        decimal_nat(n) == if n < 10 {
            seq![digit_char(n as int)]
        } else {
            decimal_nat(n / 10) + seq![digit_char((n % 10) as int)]
        },
{
    if n >= 10 {
        assert(decimal_nat(n / 10).push(digit_char((n % 10) as int)) =~= decimal_nat(n / 10)
            + seq![digit_char((n % 10) as int)]);
    }
}

/// Writes a size in decimal.
pub fn usize_to_decimal(n: usize) -> (out: String)
    ensures
        out@ == decimal_int(n as int),
{
    u128_to_decimal(n as u128)
}

/// Writes a signed integer in decimal.
pub fn i64_to_decimal(n: i64) -> (out: String)
    ensures
        out@ == decimal_int(n as int),
{
    if n < 0 {
        let magnitude: u128 = (-(n as i128)) as u128;
        let digits = u128_to_decimal(magnitude);
        let mut out = String::from_str("-");
        out.append(digits.as_str());
        proof {
            reveal_strlit("-");
            assert("-"@ =~= seq!['-']);
        }
        out
    } else {
        u128_to_decimal(n as u128)
    }
}

} // verus!
