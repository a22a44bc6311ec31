//! Decimal integers and truth values as text.

use vstd::prelude::*;

verus! {

/// The character is a decimal digit.
pub open spec fn is_digit(c: char) -> bool {
    '0' <= c <= '9'
}

/// The number that a decimal digit stands for.
pub open spec fn digit_value(c: char) -> int {
    c as int - '0' as int
}

/// Every character of `s` is a decimal digit.
pub open spec fn all_digits(s: Seq<char>) -> bool {
    forall|i: int| 0 <= i < s.len() ==> is_digit(#[trigger] s[i])
}

/// The number that a run of decimal digits denotes.
pub open spec fn decimal(s: Seq<char>) -> int
    decreases s.len(),
{
    if s.len() == 0 {
        0
    } else {
        decimal(s.drop_last()) * 10 + digit_value(s.last())
    }
}

/// The digits of an integer literal, after its sign if it has one.
pub open spec fn literal_digits(s: Seq<char>) -> Seq<char> {
    if s.len() > 0 && (s[0] == '-' || s[0] == '+') {
        s.drop_first()
    } else {
        s
    }
}

/// The integer that a literal denotes: an optional `+` or `-`, then one or
/// more decimal digits and nothing else.
pub open spec fn int_literal(s: Seq<char>) -> Option<int> {
    let digits = literal_digits(s);
    if digits.len() == 0 || !all_digits(digits) {
        None
    } else if s[0] == '-' {
        Some(-decimal(digits))
    } else {
        Some(decimal(digits))
    }
}

/// The 64-bit signed integer that a literal denotes, if it denotes one.
pub open spec fn parse_i64(s: Seq<char>) -> Option<i64> {
    match int_literal(s) {
        Some(n) => if i64::MIN <= n <= i64::MAX {
            Some(n as i64)
        } else {
            None
        },
        None => None,
    }
}

/// Reads an integer literal.
pub fn read_i64(s: &Vec<char>) -> (r: Option<i64>)
    ensures
        r == parse_i64(s@),
{
    let n: usize = s.len();
    if n == 0 {
        return None;
    }
    let negative: bool = s[0] == '-';
    let start: usize = if s[0] == '-' || s[0] == '+' {
        1
    } else {
        0
    };
    if start == n {
        return None;
    }
    let ghost digits = literal_digits(s@);
    let limit: u128 = 0x8000_0000_0000_0000;
    let mut magnitude: u128 = 0;
    let mut beyond: bool = false;
    let mut i: usize = start;
    while i < n
        invariant
            start <= i <= n == s.len(),
            digits == s@.subrange(start as int, n as int),
            digits == literal_digits(s@),
            limit == 0x8000_0000_0000_0000,
            all_digits(digits.subrange(0, i - start)),
            !beyond ==> magnitude == decimal(digits.subrange(0, i - start)) && magnitude <= limit,
            beyond ==> decimal(digits.subrange(0, i - start)) > limit,
        decreases n - i,
    {
        let c: char = s[i];
        if !('0' <= c && c <= '9') {
            assert(digits[i - start] == c);
            return None;
        }
        proof {
            let before = digits.subrange(0, i - start);
            let now = digits.subrange(0, i - start + 1);
            assert(now.drop_last() =~= before);
        }
        if !beyond {
            magnitude = magnitude * 10 + ((c as u8 - '0' as u8) as u128);
            if magnitude > limit {
                beyond = true;
            }
        }
        i += 1;
    }
    assert(digits.subrange(0, n - start) =~= digits);
    if beyond {
        return None;
    }
    if negative {
        if magnitude == limit {
            Some(i64::MIN)
        } else {
            Some(-(magnitude as i64))
        }
    } else if magnitude == limit {
        None
    } else {
        Some(magnitude as i64)
    }
}

/// The digits of a natural number, most significant first.
pub open spec fn nat_text(n: nat) -> Seq<char>
    decreases n,
{
    if n < 10 {
        seq![('0' as u8 + n as u8) as char]
    } else {
        nat_text(n / 10).push(('0' as u8 + (n % 10) as u8) as char)
    }
}

/// The decimal form of an integer, with `-` before a negative one.
pub open spec fn int_text(n: int) -> Seq<char> {
    if n < 0 {
        seq!['-'] + nat_text((-n) as nat)
    } else {
        nat_text(n as nat)
    }
}

fn push_digits(v: &mut Vec<char>, n: u64)
    ensures
        final(v)@ == old(v)@ + nat_text(n as nat),
    decreases n,
{
    if n >= 10 {
        push_digits(v, n / 10);
    }
    let d: u8 = (n % 10) as u8;
    v.push(('0' as u8 + d) as char);
}

/// The decimal form of `n`.
pub fn write_u64(n: u64) -> (r: Vec<char>)
    ensures
        r@ == nat_text(n as nat),
{
    let mut r: Vec<char> = Vec::new();
    push_digits(&mut r, n);
    r
}

/// The decimal form of `n`.
pub fn write_i64(n: i64) -> (r: Vec<char>)
    ensures
        r@ == int_text(n as int),
{
    let mut r: Vec<char> = Vec::new();
    if n < 0 {
        r.push('-');
        let magnitude: u64 = if n == i64::MIN {
            0x8000_0000_0000_0000
        } else {
            (-n) as u64
        };
        push_digits(&mut r, magnitude);
    } else {
        push_digits(&mut r, n as u64);
    }
    r
}

} // verus!
