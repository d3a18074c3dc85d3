//! Decimal numbers as text: reading a signed integer, writing one, and the
//! division that rounds towards zero.

use vstd::prelude::*;

verus! {

/// An ASCII decimal digit.
pub open spec fn is_digit(c: char) -> bool {
    48 <= c as u32 <= 57
}

/// The number a decimal digit stands for.
pub open spec fn digit_value(c: char) -> int {
    c as u32 - 48
}

/// Every character of `s` is a decimal digit.
pub open spec fn all_digits(s: Seq<char>) -> bool {
    forall|i: int| 0 <= i < s.len() ==> is_digit(#[trigger] s[i])
}

/// The number that a run of digits writes, most significant digit first.
pub open spec fn digits_value(s: Seq<char>) -> int
    decreases s.len(),
{
    if s.len() == 0 {
        0
    } else {
        digits_value(s.drop_last()) * 10 + digit_value(s.last())
    }
}

/// `s` begins with a plus or a minus sign.
pub open spec fn has_sign(s: Seq<char>) -> bool {
    s.len() > 0 && (s[0] == '-' || s[0] == '+')
}

/// The integer that `s` writes: an optional sign, then one or more decimal
/// digits and nothing else. `None` for any other text.
pub open spec fn parse_decimal(s: Seq<char>) -> Option<int> {
    let body = if has_sign(s) {
        s.skip(1)
    } else {
        s
    };
    if body.len() == 0 || !all_digits(body) {
        None
    } else if s[0] == '-' {
        Some(-digits_value(body))
    } else {
        Some(digits_value(body))
    }
}

/// The integer that `s` writes, where it lies between `lo` and `hi`.
pub open spec fn parse_in_range(s: Seq<char>, lo: int, hi: int) -> Option<int> {
    match parse_decimal(s) {
        Some(v) => if lo <= v <= hi {
            Some(v)
        } else {
            None
        },
        None => None,
    }
}

/// The character that writes the digit `d`.
pub open spec fn digit_char(d: int) -> char {
    if d == 0 {
        '0'
    } else if d == 1 {
        '1'
    } else if d == 2 {
        '2'
    } else if d == 3 {
        '3'
    } else if d == 4 {
        '4'
    } else if d == 5 {
        '5'
    } else if d == 6 {
        '6'
    } else if d == 7 {
        '7'
    } else if d == 8 {
        '8'
    } else {
        '9'
    }
}

/// The decimal digits of `n`, without leading zeros.
pub open spec fn digits_of(n: nat) -> Seq<char>
    decreases n,
{
    if n < 10 {
        seq![digit_char(n as int)]
    } else {
        digits_of(n / 10).push(digit_char((n % 10) as int))
    }
}

/// `n` in decimal, with a minus sign where it is negative.
pub open spec fn decimal(n: int) -> Seq<char> {
    if n < 0 {
        seq!['-'] + digits_of((-n) as nat)
    } else {
        digits_of(n as nat)
    }
}

/// The quotient of `a` by `b`, rounded towards zero.
pub open spec fn trunc_div(a: int, b: int) -> int
    recommends
        b != 0,
{
    if a >= 0 && b > 0 {
        a / b
    } else if a < 0 && b > 0 {
        -((-a) / b)
    } else if a >= 0 {
        -(a / (-b))
    } else {
        (-a) / (-b)
    }
}

/// The integer that `s` writes, if it writes one between `lo` and `hi`.
pub fn parse_bounded(s: &str, lo: i64, hi: i64) -> (r: Option<i64>)
    ensures
        r is Some <==> parse_in_range(s@, lo as int, hi as int) is Some,
        r is Some ==> r->0 as int == parse_in_range(s@, lo as int, hi as int)->0,
{
    let n = s.unicode_len();
    if n == 0 {
        return None;
    }
    let first = s.get_char(0);
    let negative = first == '-';
    let start: usize = if first == '-' || first == '+' {
        1
    } else {
        0
    };
    if start == n {
        return None;
    }
    let ghost body = if has_sign(s@) {
        s@.skip(1)
    } else {
        s@
    };
    let mut acc: u128 = 0;
    let mut over = false;
    let mut k: usize = start;
    assert(body.take(0) =~= Seq::<char>::empty());
    while k < n
        invariant
            n == s@.len(),
            start <= k <= n,
            body == (if has_sign(s@) {
                s@.skip(1)
            } else {
                s@
            }),
            negative == (s@[0] == '-'),
            body.len() == n - start,
            forall|j: int| 0 <= j < body.len() ==> body[j] == s@[start + j],
            forall|j: int| 0 <= j < k - start ==> is_digit(#[trigger] body[j]),
            !over ==> acc == digits_value(body.take(k - start)) && acc <= 0x8000_0000_0000_0000,
            over ==> digits_value(body.take(k - start)) > 0x8000_0000_0000_0000,
        decreases n - k,
    {
        let c = s.get_char(k);
        let u: u32 = c as u32;
        if u < 48 || u > 57 {
            assert(!is_digit(body[k - start]));
            return None;
        }
        let d: u128 = (u - 48) as u128;
        proof {
            let next = body.take(k - start + 1);
            assert(next.drop_last() =~= body.take(k - start));
            assert(next.last() == c);
        }
        if !over {
            acc = acc * 10 + d;
            if acc > 0x8000_0000_0000_0000 {
                over = true;
            }
        }
        k += 1;
    }
    assert(body.take(n - start) =~= body);
    if over {
        return None;
    }
    let value: i128 = if negative {
        -(acc as i128)
    } else {
        acc as i128
    };
    if (lo as i128) <= value && value <= (hi as i128) {
        Some(value as i64)
    } else {
        None
    }
}

/// The `i64` that `s` writes, if it writes one.
pub fn parse_i64(s: &str) -> (r: Option<i64>)
    ensures
        r is Some <==> parse_in_range(s@, i64::MIN as int, i64::MAX as int) is Some,
        r is Some ==> r->0 as int == parse_in_range(s@, i64::MIN as int, i64::MAX as int)->0,
{
    parse_bounded(s, i64::MIN, i64::MAX)
}

/// The `i32` that `s` writes, if it writes one.
pub fn parse_i32(s: &str) -> (r: Option<i32>)
    ensures
        r is Some <==> parse_in_range(s@, i32::MIN as int, i32::MAX as int) is Some,
        r is Some ==> r->0 as int == parse_in_range(s@, i32::MIN as int, i32::MAX as int)->0,
{
    match parse_bounded(s, i32::MIN as i64, i32::MAX as i64) {
        Some(v) => Some(v as i32),
        None => None,
    }
}

/// The text of one decimal digit.
fn digit_str(d: u64) -> (r: &'static str)
    requires
        d < 10,
    ensures
        r@ == seq![digit_char(d as int)],
{
    proof {
        reveal_strlit("0");
        reveal_strlit("1");
        reveal_strlit("2");
        reveal_strlit("3");
        reveal_strlit("4");
        reveal_strlit("5");
        reveal_strlit("6");
        reveal_strlit("7");
        reveal_strlit("8");
        reveal_strlit("9");
    }
    let r = if d == 0 {
        "0"
    } else if d == 1 {
        "1"
    } else if d == 2 {
        "2"
    } else if d == 3 {
        "3"
    } else if d == 4 {
        "4"
    } else if d == 5 {
        "5"
    } else if d == 6 {
        "6"
    } else if d == 7 {
        "7"
    } else if d == 8 {
        "8"
    } else {
        "9"
    };
    assert(r@ =~= seq![digit_char(d as int)]);
    r
}

/// Appends the decimal digits of `n` to `out`.
fn push_digits(out: &mut String, n: u64)
    ensures
        final(out)@ == old(out)@ + digits_of(n as nat),
    decreases n,
{
    if n >= 10 {
        push_digits(out, n / 10);
    }
    out.append(digit_str(n % 10));
    assert(final(out)@ =~= old(out)@ + digits_of(n as nat));
}

/// `n` in decimal.
pub fn format_decimal(n: i64) -> (r: String)
    ensures
        r@ == decimal(n as int),
{
    let mut out = String::new();
    if n < 0 {
        proof {
            reveal_strlit("-");
        }
        out.append("-");
        assert(out@ =~= seq!['-']);
        let magnitude: u64 = if n == i64::MIN {
            0x8000_0000_0000_0000
        } else {
            (-n) as u64
        };
        push_digits(&mut out, magnitude);
    } else {
        push_digits(&mut out, n as u64);
        assert(out@ =~= digits_of(n as nat));
    }
    out
}

/// The quotient of `a` by `b`, rounded towards zero. The divisor must not be
/// 0, and the dividend must have a negation.
pub fn div_truncating(a: i128, b: i128) -> (q: i128)
    requires
        b != 0,
        i128::MIN < a,
    ensures
        q == trunc_div(a as int, b as int),
{
    let ma: u128 = if a < 0 {
        (-a) as u128
    } else {
        a as u128
    };
    let mb: u128 = if b == i128::MIN {
        0x8000_0000_0000_0000_0000_0000_0000_0000
    } else if b < 0 {
        (-b) as u128
    } else {
        b as u128
    };
    let mq: u128 = ma / mb;
    assert(mq <= ma) by (nonlinear_arith)
        requires
            mq == ma / mb,
            mb >= 1,
    ;
    if (a < 0) == (b < 0) {
        mq as i128
    } else {
        -(mq as i128)
    }
}

} // verus!
