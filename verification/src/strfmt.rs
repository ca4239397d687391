//! Decimal rendering of small integers, as characters for bus topics and as
//! ASCII bytes for device commands.

use vstd::prelude::*;

verus! {

/// The character for one decimal digit.
pub open spec fn digit_char(d: int) -> char {
    if d == 0 {
        '0'
    } else if d == 1 {
        '1'
    } else if d == 2 {
        '2'
    } else if d == 3 {
        '3'
    } else if d == 4 {
        '4'
    } else if d == 5 {
        '5'
    } else if d == 6 {
        '6'
    } else if d == 7 {
        '7'
    } else if d == 8 {
        '8'
    } else {
        '9'
    }
}

/// The ASCII byte for one decimal digit.
pub open spec fn digit_byte(d: int) -> u8 {
    (48 + d) as u8
}

/// A value below 100 rendered as exactly two decimal characters.
pub open spec fn two_digit_chars(v: int) -> Seq<char> {
    seq![digit_char(v / 10), digit_char(v % 10)]
}

/// A value below 100 rendered as exactly two ASCII digit bytes.
pub open spec fn two_digit_bytes(v: int) -> Seq<u8> {
    seq![digit_byte(v / 10), digit_byte(v % 10)]
}

/// A one-character string slice holding the given decimal digit.
pub fn digit_str(d: u8) -> (r: &'static str)
    requires
        d < 10,
    ensures
        r@ =~= seq![digit_char(d as int)],
{
    proof {
        reveal_strlit("0");
        reveal_strlit("1");
        reveal_strlit("2");
        reveal_strlit("3");
        reveal_strlit("4");
        reveal_strlit("5");
        reveal_strlit("6");
        reveal_strlit("7");
        reveal_strlit("8");
        reveal_strlit("9");
    }
    match d {
        0 => "0",
        1 => "1",
        2 => "2",
        3 => "3",
        4 => "4",
        5 => "5",
        6 => "6",
        7 => "7",
        8 => "8",
        _ => "9",
    }
}

/// Append a value below 100 to a string as exactly two decimal characters.
pub fn push_two_digit_chars(s: &mut String, v: u8)
    requires
        v < 100,
    ensures
        final (s)@ =~= old(s)@ + two_digit_chars(v as int),
{
    s.append(digit_str(v / 10));
    s.append(digit_str(v % 10));
}

/// Append a value below 100 to a byte buffer as exactly two ASCII digits.
pub fn push_two_digit_bytes(out: &mut Vec<u8>, v: u8)
    requires
        v < 100,
    ensures
        final (out)@ =~= old(out)@ + two_digit_bytes(v as int),
{
    out.push(48 + v / 10);
    out.push(48 + v % 10);
}

/// A nonnegative value rendered in decimal without leading zeros
/// (one `0` for zero itself), as ASCII bytes.
pub open spec fn dec_bytes(n: int) -> Seq<u8>
    decreases n,
{
    if n <= 0 {
        seq![digit_byte(0)]
    } else if n < 10 {
        seq![digit_byte(n)]
    } else {
        dec_bytes(n / 10) + seq![digit_byte(n % 10)]
    }
}

/// The same decimal rendering, as characters.
pub open spec fn dec_chars(n: int) -> Seq<char>
    decreases n,
{
    if n <= 0 {
        seq![digit_char(0)]
    } else if n < 10 {
        seq![digit_char(n)]
    } else {
        dec_chars(n / 10) + seq![digit_char(n % 10)]
    }
}

/// Append a `u32` to a byte buffer in decimal.
pub fn push_decimal_u32(out: &mut Vec<u8>, n: u32)
    ensures
        final (out)@ =~= old(out)@ + dec_bytes(n as int),
{
    let ghost orig = out@;
    if n == 0 {
        out.push(48);
        return ;
    }
    let mut digits: Vec<u8> = Vec::new();
    let mut rest: u32 = n;
    while rest > 0
        invariant
            0 <= rest,
            rest > 0 || digits@.len() > 0,
            dec_bytes(n as int) =~= (if rest > 0 {
                dec_bytes(rest as int) + digits@.reverse()
            } else {
                digits@.reverse()
            }),
        decreases rest,
    {
        let d: u8 = (rest % 10) as u8;
        proof {
            let r = rest as int;
            assert(dec_bytes(r) =~= if r < 10 {
                seq![digit_byte(r % 10)]
            } else {
                dec_bytes(r / 10) + seq![digit_byte(r % 10)]
            });
            assert((digits@.push(digit_byte(r % 10))).reverse() =~= seq![digit_byte(r % 10)]
                + digits@.reverse());
        }
        digits.push(48 + d);
        rest = rest / 10;
    }
    let mut i: usize = digits.len();
    proof {
        assert(digits@.subrange(i as int, digits@.len() as int).reverse() =~= Seq::<u8>::empty());
        assert(out@ =~= orig + Seq::<u8>::empty());
    }
    while i > 0
        invariant
            i <= digits@.len(),
            out@ =~= orig + digits@.subrange(i as int, digits@.len() as int).reverse(),
            dec_bytes(n as int) =~= digits@.reverse(),
        decreases i,
    {
        i = i - 1;
        out.push(digits[i]);
        proof {
            let dv = digits@;
            assert(dv.subrange(i as int, dv.len() as int).reverse() =~= dv.subrange(
                i + 1,
                dv.len() as int,
            ).reverse() + seq![dv[i as int]]);
        }
    }
    proof {
        assert(digits@.subrange(0, digits@.len() as int) =~= digits@);
    }
}

/// Append a `u32` to a string in decimal.
pub fn push_decimal_chars(s: &mut String, n: u32)
    ensures
        final (s)@ =~= old(s)@ + dec_chars(n as int),
{
    let ghost orig = s@;
    if n == 0 {
        s.append(digit_str(0));
        return ;
    }
    let mut digits: Vec<u8> = Vec::new();
    let mut rest: u32 = n;
    while rest > 0
        invariant
            0 <= rest,
            rest > 0 || digits@.len() > 0,
            forall|k: int| 0 <= k < digits@.len() ==> #[trigger] digits@[k] < 10,
            dec_chars(n as int) =~= (if rest > 0 {
                dec_chars(rest as int) + digits@.map_values(|b: u8| digit_char(b as int)).reverse()
            } else {
                digits@.map_values(|b: u8| digit_char(b as int)).reverse()
            }),
        decreases rest,
    {
        let d: u8 = (rest % 10) as u8;
        proof {
            let r = rest as int;
            let mv = digits@.map_values(|b: u8| digit_char(b as int));
            assert(dec_chars(r) =~= if r < 10 {
                seq![digit_char(r % 10)]
            } else {
                dec_chars(r / 10) + seq![digit_char(r % 10)]
            });
            assert((digits@.push(d)).map_values(|b: u8| digit_char(b as int)) =~= mv.push(
                digit_char(r % 10),
            ));
            assert(mv.push(digit_char(r % 10)).reverse() =~= seq![digit_char(r % 10)]
                + mv.reverse());
        }
        digits.push(d);
        rest = rest / 10;
    }
    let mut i: usize = digits.len();
    proof {
        assert(digits@.subrange(i as int, digits@.len() as int).map_values(
            |b: u8| digit_char(b as int),
        ).reverse() =~= Seq::<char>::empty());
        assert(s@ =~= orig + Seq::<char>::empty());
    }
    while i > 0
        invariant
            i <= digits@.len(),
            forall|k: int| 0 <= k < digits@.len() ==> #[trigger] digits@[k] < 10,
            s@ =~= orig + digits@.subrange(i as int, digits@.len() as int).map_values(
                |b: u8| digit_char(b as int),
            ).reverse(),
            dec_chars(n as int) =~= digits@.map_values(|b: u8| digit_char(b as int)).reverse(),
        decreases i,
    {
        i = i - 1;
        s.append(digit_str(digits[i]));
        proof {
            let dv = digits@;
            assert(dv.subrange(i as int, dv.len() as int).map_values(
                |b: u8| digit_char(b as int),
            ).reverse() =~= dv.subrange(i + 1, dv.len() as int).map_values(
                |b: u8| digit_char(b as int),
            ).reverse() + seq![digit_char(dv[i as int] as int)]);
        }
    }
    proof {
        assert(digits@.subrange(0, digits@.len() as int) =~= digits@);
    }
}

} // verus!
